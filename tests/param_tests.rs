use momonc_service::json::Json;
use momonc_service::param::{Dim, DimSpec, DimSpecWithBounds, ParamValue, ParamsSpec, SpecError};
use momonc_service::RealBits;

fn num(x: f64) -> Json {
    Json::Number(RealBits::from_bits(x.to_bits()))
}

fn bits(x: f64) -> RealBits {
    RealBits::from_bits(x.to_bits())
}

fn member(name: &str, value: Json) -> (String, Json) {
    (name.to_string(), value)
}

fn document(initial: Vec<(String, Json)>, definition: Vec<(String, Json)>) -> Json {
    Json::Object(vec![
        member("initial_guess", Json::Object(initial)),
        member("definition", Json::Object(definition)),
    ])
}

fn bounds(lo: f64, hi: f64) -> Json {
    Json::Array(vec![num(lo), num(hi)])
}

fn error_of(json: Json) -> SpecError {
    match ParamsSpec::from_json(json) {
        Ok(_) => panic!("document accepted"),
        Err(e) => e,
    }
}

#[test]
fn from_json_reads_real_dimensions() {
    let json = document(
        vec![member("x", num(0.5)), member("y", num(-2.0))],
        vec![member("x", bounds(0.0, 1.0)), member("y", bounds(-3.0, 3.0))],
    );
    let spec = ParamsSpec::from_json(json).unwrap();
    assert_eq!(spec.dims.len(), 2);
    match &spec.dims[0] {
        Dim::RealNumber(d) => {
            assert_eq!(d.dim_spec.name, "x");
            assert_eq!(d.dim_spec.initial_value, bits(0.5));
            assert_eq!(d.min_value_incl, bits(0.0));
            assert_eq!(d.max_value_excl, bits(1.0));
        }
        _ => panic!("not a real dimension"),
    }
    match &spec.dims[1] {
        Dim::RealNumber(d) => {
            assert_eq!(d.dim_spec.name, "y");
            assert_eq!(d.dim_spec.initial_value, bits(-2.0));
        }
        _ => panic!("not a real dimension"),
    }
    assert!(spec.is_valid());
}

#[test]
fn from_json_accepts_initial_guess_on_either_bound() {
    let json = document(
        vec![member("a", num(0.0)), member("b", num(1.0))],
        vec![member("a", bounds(0.0, 1.0)), member("b", bounds(0.0, 1.0))],
    );
    assert!(ParamsSpec::from_json(json).is_ok());
}

#[test]
fn from_json_rejects_non_object() {
    assert_eq!(error_of(Json::Array(vec![])), SpecError::NotAnObject);
    assert_eq!(error_of(Json::Null), SpecError::NotAnObject);
}

#[test]
fn from_json_rejects_missing_initial_guess() {
    let json = Json::Object(vec![member("definition", Json::Object(vec![]))]);
    assert_eq!(error_of(json), SpecError::MissingInitialGuess);
    let json = Json::Object(vec![
        member("initial_guess", num(1.0)),
        member("definition", Json::Object(vec![])),
    ]);
    assert_eq!(error_of(json), SpecError::MissingInitialGuess);
}

#[test]
fn from_json_rejects_missing_definition() {
    let json = Json::Object(vec![member("initial_guess", Json::Object(vec![]))]);
    assert_eq!(error_of(json), SpecError::MissingDefinition);
}

#[test]
fn from_json_rejects_bounds_that_are_not_an_array() {
    let json = document(vec![member("x", num(0.5))], vec![member("x", num(1.0))]);
    assert_eq!(error_of(json), SpecError::BoundsNotArray("x".to_string()));
}

#[test]
fn from_json_rejects_bounds_of_wrong_length() {
    let json = document(
        vec![member("x", num(0.5))],
        vec![member("x", Json::Array(vec![num(0.0), num(1.0), num(2.0)]))],
    );
    assert_eq!(error_of(json), SpecError::BoundsLength("x".to_string()));
}

#[test]
fn from_json_rejects_bounds_that_are_not_numbers() {
    let json = document(
        vec![member("x", num(0.5))],
        vec![member("x", Json::Array(vec![num(0.0), Json::Str("1".to_string())]))],
    );
    assert_eq!(error_of(json), SpecError::BoundsNotNumbers("x".to_string()));
}

#[test]
fn from_json_rejects_missing_initial_value() {
    let json = document(vec![], vec![member("x", bounds(0.0, 1.0))]);
    assert_eq!(error_of(json), SpecError::InitialGuessMissing("x".to_string()));
}

#[test]
fn from_json_rejects_initial_value_that_is_not_a_number() {
    let json = document(vec![member("x", Json::Bool(true))], vec![member("x", bounds(0.0, 1.0))]);
    assert_eq!(error_of(json), SpecError::InitialGuessNotNumber("x".to_string()));
}

#[test]
fn from_json_rejects_infinite_bound() {
    let json = document(vec![member("x", num(0.5))], vec![member("x", bounds(0.0, f64::INFINITY))]);
    assert_eq!(error_of(json), SpecError::NotFinite("x".to_string()));
}

#[test]
fn from_json_rejects_empty_range() {
    let json = document(vec![member("x", num(1.0))], vec![member("x", bounds(1.0, 1.0))]);
    assert_eq!(error_of(json), SpecError::EmptyRange("x".to_string()));
}

#[test]
fn from_json_rejects_initial_value_out_of_bounds() {
    let json = document(vec![member("x", num(1.5))], vec![member("x", bounds(0.0, 1.0))]);
    assert_eq!(error_of(json), SpecError::InitialOutOfBounds("x".to_string()));
}

#[test]
fn from_json_rejects_duplicate_name() {
    let json = document(
        vec![member("x", num(0.5))],
        vec![member("x", bounds(0.0, 1.0)), member("x", bounds(0.0, 2.0))],
    );
    assert_eq!(error_of(json), SpecError::DuplicateName("x".to_string()));
}

#[test]
fn from_json_rejects_unknown_initial_value() {
    let json = document(
        vec![member("x", num(0.5)), member("z", num(0.5))],
        vec![member("x", bounds(0.0, 1.0))],
    );
    assert_eq!(error_of(json), SpecError::UnknownInitialGuess("z".to_string()));
}

#[test]
fn extract_initial_guess_follows_dimension_order() {
    let json = document(
        vec![member("b", num(0.25)), member("a", num(0.75))],
        vec![member("a", bounds(0.0, 1.0)), member("b", bounds(0.0, 1.0))],
    );
    let spec = ParamsSpec::from_json(json).unwrap();
    let guess = spec.extract_initial_guess();
    assert_eq!(guess.entries.len(), 2);
    assert_eq!(guess.entries[0].name, "a");
    assert_eq!(guess.entries[0].value, ParamValue::Real(bits(0.75)));
    assert_eq!(guess.entries[1].name, "b");
    assert_eq!(guess.entries[1].value, ParamValue::Real(bits(0.25)));
}

#[test]
fn is_valid_rejects_duplicate_names_and_bad_bounds() {
    let spec = ParamsSpec {
        dims: vec![
            Dim::Boolean(DimSpec { name: "f".to_string(), initial_value: true }),
            Dim::Integer(DimSpecWithBounds::new("n".to_string(), 3, 0, 10)),
        ],
    };
    assert!(spec.is_valid());
    let spec = ParamsSpec {
        dims: vec![
            Dim::Boolean(DimSpec { name: "f".to_string(), initial_value: true }),
            Dim::Boolean(DimSpec { name: "f".to_string(), initial_value: false }),
        ],
    };
    assert!(!spec.is_valid());
    let spec = ParamsSpec { dims: vec![Dim::Integer(DimSpecWithBounds::new("n".to_string(), 11, 0, 10))] };
    assert!(!spec.is_valid());
}

#[test]
fn dim_spec_with_bounds_new_sets_fields() {
    let d = DimSpecWithBounds::new("k".to_string(), 4i64, -1, 9);
    assert_eq!(d.dim_spec.name, "k");
    assert_eq!(d.dim_spec.initial_value, 4);
    assert_eq!(d.min_value_incl, -1);
    assert_eq!(d.max_value_excl, 9);
}
