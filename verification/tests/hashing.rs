use kasbah::errors::{ConversionError, KasbahError};
use kasbah::hashing::{hash_commitment, hash_nullifier};

fn text(value: &str) -> Option<String> {
    Some(value.to_string())
}

#[test]
fn test_poseidon_hash() {
    let leaf_empty_hash = hash_nullifier(&text("0")).unwrap();
    let inner_empty_hash =
        hash_commitment(&text(&leaf_empty_hash), &text(&leaf_empty_hash)).unwrap();
    println!("leaf_empty_hash: {:?}", leaf_empty_hash);
    println!("inner_empty_hash: {:?}", inner_empty_hash);
}

#[test]
fn hash_of_one_and_two_is_the_one_of_circom() {
    assert_eq!(
        hash_commitment(&text("1"), &text("2")),
        Ok("7853200120776062878684798364095072458815029376092732009249414926327459813530"
            .to_string())
    );
}

#[test]
fn hash_of_zero_is_the_empty_leaf() {
    assert_eq!(
        hash_nullifier(&text("0")),
        Ok("19014214495641488759237505126948346942972912379615652741039992445865937985820"
            .to_string())
    );
}

#[test]
fn hash_of_one_is_the_one_of_circom() {
    assert_eq!(
        hash_nullifier(&text("1")),
        Ok("18586133768512220936620570745912940619677854269274689475585506675881198879027"
            .to_string())
    );
}

#[test]
fn hash_depends_on_the_order_of_its_inputs() {
    assert_ne!(
        hash_commitment(&text("1"), &text("2")),
        hash_commitment(&text("2"), &text("1"))
    );
    assert_ne!(hash_commitment(&text("1"), &text("2")), Ok("1".to_string()));
}

#[test]
fn hash_of_what_is_no_number_is_refused() {
    assert_eq!(
        hash_commitment(&text("one"), &text("2")),
        Err(KasbahError::Conversion(ConversionError::ParseJsValueToFrError))
    );
    assert_eq!(
        hash_commitment(&text("1"), &None),
        Err(KasbahError::Conversion(ConversionError::BigIntToStringError))
    );
    assert_eq!(
        hash_commitment(&None, &text("two")),
        Err(KasbahError::Conversion(ConversionError::BigIntToStringError))
    );
    assert_eq!(
        hash_nullifier(&text("one")),
        Err(KasbahError::Conversion(ConversionError::ParseJsValueToFrError))
    );
    assert_eq!(
        hash_nullifier(&None),
        Err(KasbahError::Conversion(ConversionError::BigIntToStringError))
    );
}
