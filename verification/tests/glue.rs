use header_triage::rest_api::{
    is_body_binary, reqwest_error_msg, RequestFailure, RestApiResponseBody,
    DESERIALIZATION_ERROR_MSG,
};
use header_triage::transaction_info::{Balance, Info, InputType};

fn no_failure() -> RequestFailure {
    RequestFailure {
        timeout: false,
        http: false,
        serialization: false,
        redirect: false,
        client_error: false,
        server_error: false,
    }
}

fn options(only_utxos: bool, only_accounts: bool, only_outputs: bool) -> Info {
    Info {
        format: String::new(),
        only_utxos,
        only_accounts,
        only_outputs,
        format_utxo_input: String::new(),
        format_account_input: String::new(),
        format_output: String::new(),
    }
}

#[test]
fn text_of_a_text_body_is_the_text() {
    let body = RestApiResponseBody::Text("héllo".to_string());
    assert_eq!(body.text(), "héllo");
    assert_eq!(body.binary(), "héllo".as_bytes());
    assert_eq!(body.to_string(), "héllo");
    assert!(!body.is_empty());
}

#[test]
fn text_of_a_binary_body_is_decoded_lossily() {
    let body = RestApiResponseBody::Binary(vec![b'h', b'i']);
    assert_eq!(body.text(), "hi");
    let broken = RestApiResponseBody::Binary(vec![b'a', 0xff, b'b']);
    assert_eq!(broken.text(), "a\u{fffd}b");
    assert_eq!(broken.binary(), &[b'a', 0xff, b'b'][..]);
}

#[test]
fn a_binary_body_displays_in_hexadecimal() {
    let body = RestApiResponseBody::Binary(vec![1, 2, 3, 15, 16, 255]);
    assert_eq!(body.to_string(), "0102030f10ff");
    assert_eq!(RestApiResponseBody::Binary(vec![]).to_string(), "");
}

#[test]
fn empty_bodies_are_empty() {
    assert!(RestApiResponseBody::Text(String::new()).is_empty());
    assert!(RestApiResponseBody::Binary(Vec::new()).is_empty());
    assert!(!RestApiResponseBody::Binary(vec![0]).is_empty());
    assert!(!RestApiResponseBody::Text(" ".to_string()).is_empty());
}

#[test]
fn json_value_reads_text_and_bytes() {
    let text = RestApiResponseBody::Text("{\"a\": [1, 2]}".to_string());
    let value = text.json_value().unwrap();
    assert_eq!(value["a"][1].as_u64(), Some(2));
    let bytes = RestApiResponseBody::Binary(b"[true, null]".to_vec());
    let value = bytes.json_value().unwrap();
    assert_eq!(value[0].as_bool(), Some(true));
    assert!(value[1].is_null());
    assert!(RestApiResponseBody::Text("{".to_string()).json_value().is_err());
    assert!(RestApiResponseBody::Binary(vec![0xff]).json_value().is_err());
}

#[test]
fn only_the_octet_stream_type_is_binary() {
    assert!(is_body_binary(Some("application/octet-stream")));
    assert!(is_body_binary(Some("APPLICATION/OCTET-STREAM")));
    assert!(!is_body_binary(Some("application/json")));
    assert!(!is_body_binary(Some("text/plain; charset=utf-8")));
    assert!(!is_body_binary(Some("not a media type")));
    assert!(!is_body_binary(Some("")));
    assert!(!is_body_binary(None));
}

#[test]
fn the_first_flag_set_picks_the_message() {
    assert_eq!(
        reqwest_error_msg(&no_failure()),
        "communication with node failed in unexpected way"
    );
    let all = RequestFailure {
        timeout: true,
        http: true,
        serialization: true,
        redirect: true,
        client_error: true,
        server_error: true,
    };
    assert_eq!(reqwest_error_msg(&all), "connection with node timed out");
    assert_eq!(
        reqwest_error_msg(&RequestFailure { timeout: false, ..all }),
        "could not connect with node"
    );
    assert_eq!(
        reqwest_error_msg(&RequestFailure { timeout: false, http: false, ..all }),
        DESERIALIZATION_ERROR_MSG
    );
    assert_eq!(DESERIALIZATION_ERROR_MSG, "node returned malformed data");
    assert_eq!(
        reqwest_error_msg(&RequestFailure { redirect: true, client_error: true, ..no_failure() }),
        "redirecting error while connecting with node"
    );
    assert_eq!(
        reqwest_error_msg(&RequestFailure { client_error: true, server_error: true, ..no_failure() }),
        "node rejected request because of invalid parameters"
    );
    assert_eq!(
        reqwest_error_msg(&RequestFailure { server_error: true, ..no_failure() }),
        "node internal error"
    );
}

#[test]
fn a_balance_reads_with_its_sign() {
    assert_eq!(Balance::Negative(42).display(), "-42");
    assert_eq!(Balance::Positive(1000).display(), "+1000");
    assert_eq!(Balance::Positive(0).display(), "+0");
    assert_eq!(Balance::Zero.display(), "0");
    assert_eq!(Balance::Negative(u64::MAX).display(), "-18446744073709551615");
}

#[test]
fn inputs_are_shown_by_kind() {
    let all = options(false, false, false);
    assert!(all.shows_input(InputType::Account));
    assert!(all.shows_input(InputType::Utxo));
    assert!(all.shows_outputs());
    let utxos = options(true, false, false);
    assert!(!utxos.shows_input(InputType::Account));
    assert!(utxos.shows_input(InputType::Utxo));
    assert!(utxos.shows_outputs());
    let accounts = options(false, true, false);
    assert!(accounts.shows_input(InputType::Account));
    assert!(!accounts.shows_input(InputType::Utxo));
    assert!(accounts.shows_outputs());
    let outputs = options(false, false, true);
    assert!(!outputs.shows_input(InputType::Account));
    assert!(!outputs.shows_input(InputType::Utxo));
    assert!(outputs.shows_outputs());
    let both = options(true, true, false);
    assert!(!both.shows_input(InputType::Account));
    assert!(!both.shows_input(InputType::Utxo));
    assert!(!both.shows_outputs());
}

#[test]
fn inputs_to_display_keeps_the_order() {
    let kinds = vec![
        InputType::Utxo,
        InputType::Account,
        InputType::Account,
        InputType::Utxo,
        InputType::Account,
    ];
    assert_eq!(options(false, false, false).inputs_to_display(&kinds), vec![0, 1, 2, 3, 4]);
    assert_eq!(options(true, false, false).inputs_to_display(&kinds), vec![0, 3]);
    assert_eq!(options(false, true, false).inputs_to_display(&kinds), vec![1, 2, 4]);
    assert_eq!(options(false, false, true).inputs_to_display(&kinds), Vec::<usize>::new());
    assert_eq!(options(false, false, false).inputs_to_display(&Vec::new()), Vec::<usize>::new());
}
