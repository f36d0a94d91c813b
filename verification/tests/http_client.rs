use wassel::http_client::{convert_wasi_method_to_reqwest_method, request_method, ErrorCode, WasiMethod};

#[test]
fn http_standard_methods() {
    assert_eq!(convert_wasi_method_to_reqwest_method(&WasiMethod::Get).ok().map(|m| m.token), Some("GET".to_string()));
    assert_eq!(convert_wasi_method_to_reqwest_method(&WasiMethod::Patch).ok().map(|m| m.token), Some("PATCH".to_string()));
}

#[test]
fn http_extension_methods() {
    let m = convert_wasi_method_to_reqwest_method(&WasiMethod::Other("PURGE".to_string()));
    assert_eq!(m.ok().map(|m| m.token), Some("PURGE".to_string()));
    assert!(convert_wasi_method_to_reqwest_method(&WasiMethod::Other("".to_string())).is_err());
    assert!(convert_wasi_method_to_reqwest_method(&WasiMethod::Other("BAD METHOD".to_string())).is_err());
    assert!(matches!(
        request_method(&WasiMethod::Other("a(b".to_string())),
        Err(ErrorCode::HttpRequestMethodInvalid)
    ));
}
