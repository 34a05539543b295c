use basic_lexer::rand_file::{
    make_random_filename, make_random_filename_with_extension, Rand,
};

#[test]
fn next_follows_the_congruence() {
    let mut rand = Rand::from_seed(1);
    assert_eq!(rand.next(), 125);
    assert_eq!(rand.next(), 15625);
    assert_eq!(rand.next(), 1953125);
    assert_eq!(rand.next(), 870964);
    assert_eq!(rand.next(), 2614786);
}

#[test]
fn large_seed_is_reduced() {
    let mut a = Rand::from_seed(42);
    let mut b = Rand::from_seed(42 + 2796203);
    for _ in 0..5 {
        assert_eq!(a.next(), b.next());
    }
}

#[test]
fn random_filename_from_a_seed() {
    let mut rand = Rand::from_seed(1);
    assert_eq!(make_random_filename(&mut rand), "VZFQSIPU".to_string());
}

#[test]
fn random_filename_with_extension_from_a_seed() {
    let mut rand = Rand::from_seed(42);
    assert_eq!(
        make_random_filename_with_extension(&mut rand, "BAT"),
        "YKHJPZON.BAT".to_string()
    );
}

#[test]
fn random_filename_shape_from_the_clock() {
    let mut rand = Rand::new();
    let name = make_random_filename(&mut rand);
    assert_eq!(name.len(), 8);
    assert!(name.chars().all(|c| c.is_ascii_uppercase()));
}
