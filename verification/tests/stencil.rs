use softrender::stencil::{GenericStencilConfig, Stencil, StencilConfig, StencilOp, StencilTest};

#[test]
fn stencil_primitive_constants() {
    assert_eq!(<u8 as Stencil>::zero(), 0u8);
    assert_eq!(<u8 as Stencil>::one(), 1u8);
    assert_eq!(<i16 as Stencil>::one(), 1i16);
    assert_eq!(<usize as Stencil>::zero(), 0usize);
    assert_eq!(<() as Stencil>::zero(), ());
    assert_eq!(<() as Stencil>::one(), ());
}

#[test]
fn stencil_primitive_arithmetic() {
    assert_eq!(Stencil::wrapping_add(250u8, 10u8), 4u8);
    assert_eq!(Stencil::wrapping_sub(3u8, 5u8), 254u8);
    assert_eq!(Stencil::saturating_add(250u8, 10u8), 255u8);
    assert_eq!(Stencil::saturating_sub(3u8, 5u8), 0u8);
    assert_eq!(Stencil::wrapping_add(127i8, 1i8), -128i8);
    assert_eq!(Stencil::saturating_add(120i8, 10i8), 127i8);
    assert_eq!(Stencil::saturating_sub(-120i8, 10i8), -128i8);
    assert_eq!(Stencil::saturating_add(-120i8, -10i8), -128i8);
    assert_eq!(Stencil::saturating_sub(120i8, -10i8), 127i8);
    assert_eq!(Stencil::saturating_add(i64::MAX, 1i64), i64::MAX);
    assert_eq!(Stencil::saturating_sub(isize::MIN, 1isize), isize::MIN);
    assert_eq!(Stencil::not(0u8), 255u8);
    assert_eq!(Stencil::not(0i8), -1i8);
    assert_eq!(Stencil::not(0x00ffu16), 0xff00u16);
    assert!(Stencil::less_than(&3u32, &4u32));
    assert!(!Stencil::less_than(&4u32, &4u32));
    assert!(Stencil::equals(&-7i32, &-7i32));
    assert!(!Stencil::equals(&7u64, &8u64));
    assert!(!Stencil::less_than(&(), &()));
    assert!(Stencil::equals(&(), &()));
}

#[test]
fn stencil_op_on_u8() {
    assert_eq!(StencilOp::<u8>::Keep.op(17), 17);
    assert_eq!(StencilOp::<u8>::Invert.op(0), 255);
    assert_eq!(StencilOp::<u8>::Invert.op(5), 250);
    assert_eq!(StencilOp::<u8>::Zero.op(99), 0);
    assert_eq!(StencilOp::<u8>::Replace(42).op(3), 42);
    assert_eq!(StencilOp::<u8>::Increment { wrap: true }.op(255), 0);
    assert_eq!(StencilOp::<u8>::Increment { wrap: false }.op(255), 255);
    assert_eq!(StencilOp::<u8>::Increment { wrap: false }.op(7), 8);
    assert_eq!(StencilOp::<u8>::Decrement { wrap: true }.op(0), 255);
    assert_eq!(StencilOp::<u8>::Decrement { wrap: false }.op(0), 0);
    assert_eq!(StencilOp::<u8>::Decrement { wrap: false }.op(7), 6);
}

#[test]
fn stencil_op_on_signed() {
    assert_eq!(StencilOp::<i8>::Invert.op(0), -1);
    assert_eq!(StencilOp::<i8>::Invert.op(-128), 127);
    assert_eq!(StencilOp::<i8>::Increment { wrap: true }.op(127), -128);
    assert_eq!(StencilOp::<i8>::Increment { wrap: false }.op(127), 127);
    assert_eq!(StencilOp::<i8>::Decrement { wrap: true }.op(-128), 127);
    assert_eq!(StencilOp::<i8>::Decrement { wrap: false }.op(-128), -128);
    assert_eq!(StencilOp::<i32>::Decrement { wrap: false }.op(0), -1);
    assert_eq!(StencilOp::<i64>::Increment { wrap: true }.op(i64::MAX), i64::MIN);
}

#[test]
fn stencil_op_on_unit() {
    assert_eq!(StencilOp::<()>::Keep.op(()), ());
    assert_eq!(StencilOp::<()>::Invert.op(()), ());
    assert_eq!(StencilOp::<()>::Increment { wrap: true }.op(()), ());
    assert_eq!(StencilOp::<()>::Decrement { wrap: false }.op(()), ());
}

#[test]
fn stencil_tests_compare_new_against_present() {
    // present = 5, value = 3
    assert!(StencilTest::Always.test(5u8, 3u8));
    assert!(!StencilTest::Never.test(5u8, 3u8));
    assert!(StencilTest::LessThan.test(5u8, 3u8));
    assert!(StencilTest::LessThanEq.test(5u8, 3u8));
    assert!(!StencilTest::GreaterThan.test(5u8, 3u8));
    assert!(!StencilTest::GreaterThanEq.test(5u8, 3u8));
    assert!(!StencilTest::Equal.test(5u8, 3u8));
    assert!(StencilTest::NotEqual.test(5u8, 3u8));
    // equal values
    assert!(StencilTest::LessThanEq.test(4i16, 4i16));
    assert!(StencilTest::GreaterThanEq.test(4i16, 4i16));
    assert!(!StencilTest::LessThan.test(4i16, 4i16));
    assert!(StencilTest::Equal.test(4i16, 4i16));
    // value above present
    assert!(StencilTest::GreaterThan.test(-2i32, 9i32));
    assert!(!StencilTest::LessThan.test(-2i32, 9i32));
    // the unit stencil holds one value
    assert!(StencilTest::Equal.test((), ()));
    assert!(!StencilTest::LessThan.test((), ()));
}

#[test]
fn stencil_configs() {
    let unit_op: StencilOp<()> = StencilConfig::<()>::op(&());
    assert_eq!(unit_op, StencilOp::Keep);
    assert_eq!(StencilConfig::<()>::test(&()), StencilTest::Always);

    let default: GenericStencilConfig<u8> = GenericStencilConfig::default();
    assert_eq!(default.op, StencilOp::Keep);
    assert_eq!(default.test, StencilTest::Always);

    let config = GenericStencilConfig { op: StencilOp::Replace(7u8), test: StencilTest::Equal };
    assert_eq!(StencilConfig::op(&config), StencilOp::Replace(7u8));
    assert_eq!(StencilConfig::test(&config), StencilTest::Equal);
}

#[test]
fn stencil_law_invert_twice_on_u8_and_i8() {
    for v in 0..=255u8 {
        assert_eq!(StencilOp::<u8>::Invert.op(StencilOp::<u8>::Invert.op(v)), v);
    }
    for v in -128..=127i8 {
        assert_eq!(StencilOp::<i8>::Invert.op(StencilOp::<i8>::Invert.op(v)), v);
    }
}

#[test]
fn stencil_law_wrapping_steps_undo_on_u8_and_i8() {
    let inc = StencilOp::<u8>::Increment { wrap: true };
    let dec = StencilOp::<u8>::Decrement { wrap: true };
    for v in 0..=255u8 {
        assert_eq!(dec.op(inc.op(v)), v);
        assert_eq!(inc.op(dec.op(v)), v);
    }
    let inc = StencilOp::<i8>::Increment { wrap: true };
    let dec = StencilOp::<i8>::Decrement { wrap: true };
    for v in -128..=127i8 {
        assert_eq!(dec.op(inc.op(v)), v);
        assert_eq!(inc.op(dec.op(v)), v);
    }
}

#[test]
fn stencil_law_saturating_steps_on_u16() {
    let inc = StencilOp::<u16>::Increment { wrap: false };
    let dec = StencilOp::<u16>::Decrement { wrap: false };
    assert_eq!(inc.op(u16::MAX - 1), u16::MAX);
    assert_eq!(inc.op(u16::MAX), u16::MAX);
    assert_eq!(dec.op(1), 0);
    assert_eq!(dec.op(0), 0);
}

#[test]
fn stencil_law_results_stay_in_range() {
    let ops = [
        StencilOp::<i8>::Keep,
        StencilOp::Invert,
        StencilOp::Zero,
        StencilOp::Replace(-5),
        StencilOp::Increment { wrap: true },
        StencilOp::Increment { wrap: false },
        StencilOp::Decrement { wrap: true },
        StencilOp::Decrement { wrap: false },
    ];
    for op in ops.iter() {
        for v in -128..=127i8 {
            let r = op.op(v) as i32;
            assert!((-128..=127).contains(&r));
        }
    }
}

#[test]
fn stencil_law_test_relations() {
    for present in 0..=6u8 {
        for value in 0..=6u8 {
            assert_eq!(
                StencilTest::NotEqual.test(present, value),
                !StencilTest::Equal.test(present, value)
            );
            assert_eq!(
                StencilTest::LessThanEq.test(present, value),
                !StencilTest::GreaterThan.test(present, value)
            );
            assert_eq!(
                StencilTest::GreaterThanEq.test(present, value),
                !StencilTest::LessThan.test(present, value)
            );
            assert_eq!(
                StencilTest::LessThan.test(present, value),
                StencilTest::GreaterThan.test(value, present)
            );
        }
    }
}
