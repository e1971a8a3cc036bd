pub mod luogu_oj;
