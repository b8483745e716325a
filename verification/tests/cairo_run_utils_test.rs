use blockifier::execution::cairo_run_utils::{
    bigint_to_felt, extract_execution_return_data, felt_to_bigint, return_data_size,
    usize_try_from_starkfelt, CairoRunConfig, Layout, MaybeRelocatable, Relocatable,
    ReturnDataError,
};
use blockifier::felt::{FeltError, StarkFelt};
use num_bigint::BigInt;

#[test]
fn layout_name_is_lower_case() {
    assert_eq!(String::from(Layout::All), "all");
    let name: String = Layout::All.into();
    assert_eq!(name, format!("{:?}", Layout::All).to_ascii_lowercase());
}

#[test]
fn default_config_runs_every_builtin_without_trace() {
    let config = CairoRunConfig::default();

    assert!(!config.enable_trace);
    assert!(matches!(config.layout, Layout::All));
    assert!(!config.proof_mode);
}

#[test]
fn felt_to_bigint_gives_the_number() {
    assert_eq!(felt_to_bigint(StarkFelt::default()), BigInt::from(0));
    assert_eq!(felt_to_bigint(StarkFelt::from_be_bytes(&[5]).unwrap()), BigInt::from(5));
    assert_eq!(
        felt_to_bigint(StarkFelt::from_be_bytes(&[0x01, 0x00]).unwrap()),
        BigInt::from(256)
    );
    assert_eq!(
        felt_to_bigint(StarkFelt::from_be_bytes(&[0x12, 0x34, 0x56, 0x78, 0x9a]).unwrap()),
        BigInt::from(0x12_3456_789au64)
    );
}

#[test]
fn bigint_to_felt_gives_the_element() {
    assert_eq!(bigint_to_felt(&BigInt::from(0)), Ok(StarkFelt::default()));
    assert_eq!(bigint_to_felt(&BigInt::from(5)), Ok(StarkFelt::from_be_bytes(&[5]).unwrap()));
    assert_eq!(
        bigint_to_felt(&BigInt::from(0x0102_0304u32)),
        Ok(StarkFelt::from_be_bytes(&[1, 2, 3, 4]).unwrap())
    );
}

#[test]
fn bigint_to_felt_rejects_negative_numbers() {
    assert_eq!(bigint_to_felt(&BigInt::from(-1)), Err(FeltError::Negative));
    let large: BigInt = BigInt::from(1) << 300;
    assert_eq!(bigint_to_felt(&-large), Err(FeltError::Negative));
}

#[test]
fn bigint_to_felt_rejects_what_does_not_fit() {
    let bound: BigInt = BigInt::from(1) << 252;
    let wider: BigInt = BigInt::from(1) << 256;
    let widest: BigInt = BigInt::from(1) << 300;

    assert_eq!(bigint_to_felt(&bound), Err(FeltError::OutOfRange));
    assert_eq!(bigint_to_felt(&wider), Err(FeltError::OutOfRange));
    assert_eq!(bigint_to_felt(&widest), Err(FeltError::OutOfRange));

    let largest: BigInt = bound - 1;
    let mut bytes = [0xffu8; 32];
    bytes[0] = 0x0f;
    assert_eq!(bigint_to_felt(&largest), Ok(StarkFelt::new(bytes).unwrap()));
}

#[test]
fn bigint_and_felt_round_trip() {
    let mut bytes = [0u8; 32];
    for (i, byte) in bytes.iter_mut().enumerate() {
        *byte = (i as u8).wrapping_mul(7) & 0x0f;
    }
    let felt = StarkFelt::new(bytes).unwrap();

    assert_eq!(bigint_to_felt(&felt_to_bigint(felt)), Ok(felt));

    let shifted: BigInt = BigInt::from(0xdead_beefu32) << 100;
    let number: BigInt = shifted + 17;
    assert_eq!(felt_to_bigint(bigint_to_felt(&number).unwrap()), number);
}

#[test]
fn usize_is_read_from_the_last_eight_bytes() {
    let felt = StarkFelt::from_be_bytes(&[0x01, 0x02, 0x03]).unwrap();
    assert_eq!(usize_try_from_starkfelt(&felt), Ok(0x01_0203));

    assert_eq!(usize_try_from_starkfelt(&StarkFelt::default()), Ok(0));

    let mut bytes = [0u8; 32];
    bytes[24..32].copy_from_slice(&[0x11, 0x22, 0x33, 0x44, 0x55, 0x66, 0x77, 0x88]);
    let felt = StarkFelt::new(bytes).unwrap();
    assert_eq!(usize_try_from_starkfelt(&felt), Ok(0x1122_3344_5566_7788));
}

#[test]
fn usize_ignores_the_bytes_before_the_last_eight() {
    let mut bytes = [0u8; 32];
    bytes[0] = 0x0f;
    bytes[23] = 0xff;
    bytes[31] = 0x2a;
    let felt = StarkFelt::new(bytes).unwrap();

    assert_eq!(usize_try_from_starkfelt(&felt), Ok(0x2a));
}

#[test]
fn return_data_size_is_the_bit_count_of_the_number() {
    let sized = |number: u64| return_data_size(&MaybeRelocatable::Int(BigInt::from(number)));

    assert_eq!(sized(0), Ok(0));
    assert_eq!(sized(1), Ok(1));
    assert_eq!(sized(2), Ok(2));
    assert_eq!(sized(3), Ok(2));
    assert_eq!(sized(4), Ok(3));
    assert_eq!(sized(255), Ok(8));
    assert_eq!(sized(256), Ok(9));
    let wide: BigInt = BigInt::from(1) << 251;
    assert_eq!(return_data_size(&MaybeRelocatable::Int(wide)), Ok(252));
    assert_eq!(return_data_size(&MaybeRelocatable::Int(BigInt::from(-4))), Ok(3));
}

#[test]
fn return_data_size_must_be_a_number() {
    let address = Relocatable { segment_index: 1, offset: 7 };

    assert_eq!(
        return_data_size(&MaybeRelocatable::RelocatableValue(address)),
        Err(ReturnDataError::ExpectedInteger(address))
    );
}

#[test]
fn return_data_is_read_cell_by_cell() {
    let values = vec![
        Some(MaybeRelocatable::Int(BigInt::from(5))),
        Some(MaybeRelocatable::Int(BigInt::from(0))),
        Some(MaybeRelocatable::Int(BigInt::from(0x0102))),
    ];

    assert_eq!(
        extract_execution_return_data(&values),
        Ok(vec![
            StarkFelt::from_be_bytes(&[5]).unwrap(),
            StarkFelt::default(),
            StarkFelt::from_be_bytes(&[1, 2]).unwrap(),
        ])
    );
    assert_eq!(extract_execution_return_data(&Vec::new()), Ok(Vec::new()));
}

#[test]
fn return_data_must_hold_numbers() {
    let address = Relocatable { segment_index: 2, offset: 3 };
    let values = vec![
        Some(MaybeRelocatable::Int(BigInt::from(5))),
        Some(MaybeRelocatable::RelocatableValue(address)),
        None,
    ];

    assert_eq!(
        extract_execution_return_data(&values),
        Err(ReturnDataError::ExpectedInteger(address))
    );
}

#[test]
fn return_data_must_not_have_gaps() {
    let values = vec![Some(MaybeRelocatable::Int(BigInt::from(5))), None];

    assert_eq!(extract_execution_return_data(&values), Err(ReturnDataError::NoneInMemoryRange));
}

#[test]
fn return_data_must_hold_field_elements() {
    let too_large: BigInt = BigInt::from(1) << 252;
    let negative = vec![
        Some(MaybeRelocatable::Int(BigInt::from(-1))),
        Some(MaybeRelocatable::Int(too_large.clone())),
    ];
    let large = vec![Some(MaybeRelocatable::Int(too_large)), None];

    assert_eq!(
        extract_execution_return_data(&negative),
        Err(ReturnDataError::Conversion(FeltError::Negative))
    );
    assert_eq!(
        extract_execution_return_data(&large),
        Err(ReturnDataError::Conversion(FeltError::OutOfRange))
    );
}

/// The bytes of the field element that parsing the number's hexadecimal
/// form gives, if it gives one.
fn parsed_from_hex(number: &BigInt) -> Option<[u8; 32]> {
    let hex = format!("{number:#x}");
    let felt = starknet_api::hash::StarkFelt::try_from(hex.as_str()).ok()?;
    Some(felt.bytes().try_into().unwrap())
}

#[test]
fn bigint_to_felt_agrees_with_parsing_the_hexadecimal_form() {
    let one = BigInt::from(1);
    let numbers: Vec<BigInt> = vec![
        BigInt::from(0),
        BigInt::from(1),
        BigInt::from(0xf),
        BigInt::from(0x10),
        BigInt::from(0xff),
        BigInt::from(0x100),
        BigInt::from(0x1234_5678_9abc_def0u64),
        (one.clone() << 128) + 5,
        one.clone() << 251,
        (one.clone() << 252) - 1,
        one.clone() << 252,
        (one.clone() << 252) + 1,
        (one.clone() << 256) - 1,
        one.clone() << 256,
        one.clone() << 300,
    ];

    for number in numbers {
        let converted = bigint_to_felt(&number).ok().map(|felt| *felt.bytes());
        assert_eq!(converted, parsed_from_hex(&number), "for {number:#x}");
    }
}
