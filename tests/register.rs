use mipsy::{Register, RegisterError};

fn number_of(r: Result<Register, RegisterError>) -> u8 {
    r.unwrap().to_number()
}

#[test]
fn numeric_operands_resolve_to_their_index() {
    for n in 0..32u8 {
        let text = format!("{}", n);
        assert_eq!(number_of(Register::resolve(&text)), n);
    }
}

#[test]
fn numeric_operand_above_range() {
    assert_eq!(Register::resolve("32"), Err(RegisterError::NumRegisterOutOfRange(32)));
}

#[test]
fn numeric_operand_below_range() {
    assert_eq!(Register::resolve("-1"), Err(RegisterError::NumRegisterOutOfRange(-1)));
}

#[test]
fn numeric_operand_with_plus_sign() {
    assert_eq!(Register::resolve("+8"), Ok(Register::T0));
}

#[test]
fn named_operand_out_of_family_range() {
    assert_eq!(
        Register::resolve("t10"),
        Err(RegisterError::NamedRegisterOutOfRange { reg_name: 't', reg_index: 10 })
    );
    assert_eq!(
        Register::resolve("s8"),
        Err(RegisterError::NamedRegisterOutOfRange { reg_name: 's', reg_index: 8 })
    );
    assert_eq!(
        Register::resolve("a4"),
        Err(RegisterError::NamedRegisterOutOfRange { reg_name: 'a', reg_index: 4 })
    );
}

#[test]
fn unknown_operand_keeps_its_text() {
    assert_eq!(Register::resolve("foo"), Err(RegisterError::UnknownRegister("foo".to_string())));
    assert_eq!(Register::resolve("x5"), Err(RegisterError::UnknownRegister("x5".to_string())));
    assert_eq!(Register::resolve(""), Err(RegisterError::UnknownRegister(String::new())));
    assert_eq!(
        Register::resolve("99999999999"),
        Err(RegisterError::UnknownRegister("99999999999".to_string()))
    );
}

#[test]
fn family_prefix_is_case_sensitive() {
    assert_eq!(Register::resolve("T10"), Err(RegisterError::UnknownRegister("T10".to_string())));
}

#[test]
fn names_resolve_in_any_case() {
    assert_eq!(Register::resolve("zero"), Ok(Register::ZERO));
    assert_eq!(Register::resolve("Zero"), Ok(Register::ZERO));
    assert_eq!(Register::resolve("SP"), Ok(Register::SP));
    assert_eq!(Register::resolve("sP"), Ok(Register::SP));
    assert_eq!("ra".parse::<Register>(), Ok(Register::RA));
}

#[test]
fn every_register_round_trips() {
    for (i, r) in Register::all().iter().enumerate() {
        assert_eq!(r.to_number() as usize, i);
        assert_eq!(r.to_u32() as usize, i);
        assert_eq!(Register::from_number(i as i32), Ok(*r));
        assert_eq!(Register::from_u32(i as u32), Ok(*r));
        assert_eq!(Register::resolve(r.to_str()), Ok(*r));
        assert_eq!(Register::resolve(r.to_lower_str()), Ok(*r));
        assert_eq!(Register::u32_to_str(i as u32), r.to_str());
        assert_eq!(r.to_str().to_lowercase(), r.to_lower_str());
    }
}

#[test]
fn register_names() {
    assert_eq!(Register::ZERO.to_str(), "ZERO");
    assert_eq!(Register::T8.to_str(), "T8");
    assert_eq!(Register::FP.to_lower_str(), "fp");
    assert_eq!(Register::u32_to_str(31), "RA");
    assert_eq!(Register::u32_to_str(16), "S0");
}

#[test]
fn register_numbers() {
    assert_eq!(Register::K1.to_number(), 27);
    assert_eq!(Register::GP.to_u32(), 28);
    assert_eq!(Register::from_number(29), Ok(Register::SP));
    assert_eq!(Register::from_number(100), Err(RegisterError::NumRegisterOutOfRange(100)));
    assert_eq!(Register::from_u32(40), Err(RegisterError::NumRegisterOutOfRange(40)));
    assert_eq!(Register::from_u32(u32::MAX), Err(RegisterError::NumRegisterOutOfRange(-1)));
}

#[test]
fn from_str_resolves_like_resolve() {
    assert_eq!("zErO".parse::<Register>(), Ok(Register::ZERO));
    assert_eq!("31".parse::<Register>(), Ok(Register::RA));
    assert_eq!("32".parse::<Register>(), Err(RegisterError::NumRegisterOutOfRange(32)));
    assert_eq!(
        "k2".parse::<Register>(),
        Err(RegisterError::NamedRegisterOutOfRange { reg_name: 'k', reg_index: 2 })
    );
    assert_eq!("foo".parse::<Register>(), Err(RegisterError::UnknownRegister("foo".to_string())));
}
