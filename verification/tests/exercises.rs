use rustlab::buffer::Buffer;
use rustlab::text::{compare_string, map_add_1};

/// Floating-point sums stay outside the verified library; for a buffer of
/// `f64` the sum is taken with the standard iterator, as the exercise did.
trait FloatSum {
    fn sum(&self) -> f64;
}

impl FloatSum for Buffer<f64> {
    fn sum(&self) -> f64 {
        self.data.clone().into_iter().sum()
    }
}

#[test]
fn test_ex1() {
    let v1 = [1, 2, 3, 4, 5, 6, 7, 8, 9];
    let buf = Buffer::new(v1.to_vec());
    assert_eq!(buf.sum(), 45);

    let v2 = [1.1, 2.2, 3.3, 4.4, 5.5, 6.6, 7.7, 8.8, 9.9];
    let buf = Buffer::new(v2.to_vec());
    assert_eq!(buf.sum(), 5.5 * 9.0);
}

#[test]
fn test_ex2() {
    let str1 = "abcde";
    let str2 = "lmnop";
    let str3 = "lmnoz";
    let str4 = "lmn";
    let str5 = "lmnopq";
    assert_eq!(compare_string(str1, str1), false);
    assert_eq!(compare_string(str1, str2), false);
    assert_eq!(compare_string(str3, str2), true);
    assert_eq!(compare_string(str2, str4), true);
    assert_eq!(compare_string(str2, str5), false);
}

#[test]
fn test_ex3() {
    let v: Vec<char> = ['a', 'b', 'c', 'd', 'e'].to_vec();
    assert_eq!(map_add_1(&v), ['b', 'c', 'd', 'e', 'f'].to_vec());
}
