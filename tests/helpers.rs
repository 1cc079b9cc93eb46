use open_formula::helpers::{column_to_id, RefError};

#[test]
fn column_ids() {
    assert_eq!(column_to_id("A"), Ok(0));
    assert_eq!(column_to_id("B"), Ok(1));
    assert_eq!(column_to_id("C"), Ok(2));
    assert_eq!(column_to_id("AA"), Ok(26));
    assert_eq!(column_to_id("AB"), Ok(27));
    assert_eq!(column_to_id("XFD"), Ok(16383));

    assert_eq!(column_to_id(""), Err(RefError::EmptyReference));
    assert_eq!(column_to_id("%"), Err(RefError::MalformedReference));
    assert_eq!(column_to_id("A0F"), Err(RefError::MalformedReference));
    assert_eq!(column_to_id("Aa"), Err(RefError::MalformedReference));
    assert_eq!(column_to_id("aA"), Err(RefError::MalformedReference));
    assert_eq!(column_to_id("ab"), Err(RefError::MalformedReference));
}

#[test]
fn column_id_too_large_is_malformed() {
    assert_eq!(
        column_to_id("AAAAAAAAAAAAAAAAAAAAAAAAAAAAAAAAAA"),
        Err(RefError::MalformedReference)
    );
    assert_eq!(column_to_id("Z"), Ok(25));
    assert_eq!(column_to_id("ZZ"), Ok(701));
}

#[test]
fn ref_error_messages() {
    assert_eq!(RefError::EmptyReference.message(), "empty reference");
    assert_eq!(RefError::MalformedReference.message(), "malformed reference");
}
