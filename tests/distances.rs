use yos::distances::{hamming, levenshtein, sift3_matches};

#[test]
fn levenshtein_pass() {
    let a = "kitten".as_bytes();
    let b = "sitting".as_bytes();

    let d = levenshtein(a, b);
    assert_eq!(3, d);

    let d = levenshtein(b, a);
    assert_eq!(3, d);
}

#[test]
fn hamming_pass() {
    let a = "karolin".as_bytes();
    let b = "kathrin".as_bytes();
    let d = hamming(a, b);
    assert_eq!(3, d);
}

#[test]
fn test_levenshtein() {
    let a = "kitten".as_bytes();
    let b = "sitting".as_bytes();

    let d = levenshtein(a, b);
    assert_eq!(3, d);

    let d = levenshtein(b, a);
    assert_eq!(3, d);
}

#[test]
fn test_hamming() {
    let a = "karolin".as_bytes();
    let b = "kathrin".as_bytes();
    let d = hamming(a, b);
    assert_eq!(3, d);
}

#[test]
fn distances_edge_cases() {
    assert_eq!(levenshtein(b"", b"abc"), 3);
    assert_eq!(levenshtein(b"abc", b""), 3);
    assert_eq!(levenshtein(b"flaw", b"lawn"), 2);
    assert_eq!(hamming(b"", b""), 0);
    assert_eq!(hamming(b"1011101", b"1001001"), 2);
}

#[test]
fn sift3_pass() {
    let xs = "hannah".as_bytes();
    let ys = "hanna".as_bytes();
    let lcs = sift3_matches(xs, ys, 5);
    assert_eq!(lcs, 5);
    let d = ((xs.len() + ys.len()) as f32) / 2.0 - (lcs as f32);
    let e: f32 = 0.5;
    assert!((e - d).abs() < std::f32::EPSILON);
}

#[test]
fn sift3_matches_after_offsets() {
    assert_eq!(sift3_matches(b"abcd", b"abxcd", 3), 3);
    assert_eq!(sift3_matches(b"", b"abc", 3), 0);
    assert_eq!(sift3_matches(b"same", b"same", 0), 4);
}
