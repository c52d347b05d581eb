use icrc7_platform::identity::{
    not_anonymous_caller, slice_to_principal, string_to_principal, Principal,
};

#[test]
fn anonymous_identity_is_the_single_byte_four() {
    let p = Principal::anonymous();
    assert_eq!(p.as_slice(), &[4u8][..]);
    assert!(p.is_anonymous());
    assert_eq!(p.to_text(), "2vxsx-fae");
}

#[test]
fn management_identity_is_empty() {
    let p = Principal::management_canister();
    assert_eq!(p.as_slice().len(), 0);
    assert_eq!(p.to_text(), "aaaaa-aa");
    assert!(!p.is_anonymous());
}

#[test]
fn text_round_trip() {
    let p = Principal::from_slice(&[0xef, 0xcd, 0xab, 0, 0, 0, 0, 0, 1]);
    assert_eq!(p.to_text(), "2chl6-4hpzw-vqaaa-aaaaa-c");
    let q = Principal::from_text("2chl6-4hpzw-vqaaa-aaaaa-c").unwrap();
    assert_eq!(p, q);
    assert!(p != Principal::anonymous());
}

#[test]
fn too_long_slice_is_refused() {
    assert!(Principal::try_from_slice(&[1u8; 30]).is_none());
    assert!(Principal::try_from_slice(&[1u8; 29]).is_some());
}

#[test]
fn malformed_text_falls_back_to_anonymous() {
    assert!(Principal::from_text("not a principal").is_none());
    assert_eq!(string_to_principal("not a principal".to_string()), Principal::anonymous());
    assert_eq!(slice_to_principal(""), Principal::anonymous());
    assert_eq!(
        slice_to_principal("2chl6-4hpzw-vqaaa-aaaaa-c").as_slice(),
        &[0xef, 0xcd, 0xab, 0, 0, 0, 0, 0, 1][..]
    );
}

#[test]
fn guard_turns_anonymous_away() {
    assert_eq!(
        not_anonymous_caller(&Principal::anonymous()),
        Err("Caller is anonymous.".to_string())
    );
    assert_eq!(not_anonymous_caller(&Principal::from_slice(&[1, 2, 3])), Ok(()));
}
