use mathfp::runtime::{Computation, Environment, RuntimeValue};
use mathfp::token::Numeral;

fn number(value: f64) -> RuntimeValue {
    RuntimeValue::Number(Computation::Numeral(
        Numeral::parse(&format!("{}", value)).unwrap(),
    ))
}

#[test]
fn test_initial_globals() {
    let env = Environment::new();
    assert_eq!(env.resolve("true"), Some(&RuntimeValue::Boolean(true)));
    assert_eq!(env.resolve("nil"), Some(&RuntimeValue::Nil));
}

#[test]
fn test_binding_and_resolving() {
    let mut env = Environment::new();
    let _ = env.bind("x".into(), number(10.0));

    assert_eq!(env.resolve("x"), Some(&number(10.0)));
}

#[test]
fn test_prevent_overwriting_constants() {
    let mut env = Environment::new();
    // Attempt to redefine a global constant
    let result = env.bind("true".into(), RuntimeValue::Boolean(false));

    assert!(result.is_err());
    // Verify the value didn't actually change
    assert_eq!(env.resolve("true"), Some(&RuntimeValue::Boolean(true)));
}

#[test]
fn test_allow_overwriting_variables() {
    let mut mut_env = Environment::new();
    let _ = mut_env.bind("x".into(), number(1.0));
    let _ = mut_env.bind("x".into(), number(2.0)); // Should work

    assert_eq!(mut_env.resolve("x"), Some(&number(2.0)));
}

#[test]
fn a_new_environment_holds_three_constants() {
    let env = Environment::new();
    assert_eq!(env.resolve("nil"), Some(&RuntimeValue::Nil));
    assert_eq!(env.resolve("true"), Some(&RuntimeValue::Boolean(true)));
    assert_eq!(env.resolve("false"), Some(&RuntimeValue::Boolean(false)));
    assert_eq!(env.resolve("x"), None);
    assert_eq!(env.resolve("True"), None);
    assert_eq!(env.resolve(""), None);
}

#[test]
fn every_constant_is_protected() {
    for name in ["nil", "true", "false"] {
        let mut env = Environment::new();
        let before = env.resolve(name).cloned();
        assert_eq!(
            env.bind(name.to_string(), number(5.0)),
            Err(format!("Cannot modify variable '{name}'"))
        );
        assert_eq!(env.resolve(name).cloned(), before);
        // and stays so
        assert!(env.bind(name.to_string(), RuntimeValue::Nil).is_err());
        assert_eq!(env.resolve(name).cloned(), before);
    }
}

#[test]
fn binding_one_name_leaves_the_others() {
    let mut env = Environment::new();
    assert_eq!(env.bind("x".into(), number(1.0)), Ok(()));
    assert_eq!(env.bind("y".into(), RuntimeValue::String("s".into())), Ok(()));
    assert_eq!(env.bind("x".into(), RuntimeValue::Boolean(false)), Ok(()));
    assert_eq!(env.resolve("x"), Some(&RuntimeValue::Boolean(false)));
    assert_eq!(env.resolve("y"), Some(&RuntimeValue::String("s".into())));
    assert_eq!(env.resolve("true"), Some(&RuntimeValue::Boolean(true)));
}
