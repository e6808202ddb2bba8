use osom_asm_x86_64::helpers::TmpSlice;

#[test]
fn test_asserts() {
    let left = [1, 2, 3];
    let right = [1, 2, 3];
    assert!(TmpSlice::new(&left).equals(&TmpSlice::new(&right)));
}

#[test]
fn test_asserts_unequal() {
    let left = [1, 2, 3];
    let right = [1, 2, 5];
    assert!(!TmpSlice::new(&left).equals(&TmpSlice::new(&right)));
    let shorter = [1, 2];
    assert!(!TmpSlice::new(&left).equals(&TmpSlice::new(&shorter)));
}
