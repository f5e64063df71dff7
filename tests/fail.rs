use inetstack::fail::Fail;

#[test]
fn failed_int_conversion_is_out_of_range() {
    let e: Fail = u8::try_from(300u32).unwrap_err().into();
    assert_eq!(e, Fail::OutOfRange { details: "std::num::TryFromIntError" });
}
