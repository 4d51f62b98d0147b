use mica::lsp::framing::{
    body_length, classify_header, end_of_input, frame_header, HeaderLine, LspFrameError,
    MAX_MESSAGE_BYTES,
};

#[test]
fn header_lines_are_classified() {
    assert_eq!(classify_header("\r\n").unwrap(), HeaderLine::End);
    assert_eq!(classify_header("\n").unwrap(), HeaderLine::End);
    assert_eq!(classify_header("Content-Length: 8\r\n").unwrap(), HeaderLine::ContentLength(8));
    assert_eq!(classify_header(" content-LENGTH :  42 \n").unwrap(), HeaderLine::ContentLength(42));
    assert_eq!(
        classify_header("Content-Type: application/vscode-jsonrpc; charset=utf-8\r\n").unwrap(),
        HeaderLine::Other
    );
    assert_eq!(classify_header("garbage\r\n").unwrap(), HeaderLine::Other);
    assert_eq!(
        classify_header("Content-Length: ten\r\n"),
        Err(LspFrameError::InvalidContentLength("ten".to_owned()))
    );
}

#[test]
fn body_length_needs_a_header_within_the_limit() {
    assert_eq!(body_length(Some(10)), Ok(10));
    assert_eq!(body_length(None), Err(LspFrameError::MissingContentLength));
    assert_eq!(body_length(Some(MAX_MESSAGE_BYTES + 1)), Err(LspFrameError::MessageTooLarge));
    assert_eq!(end_of_input(false), Ok(()));
    assert_eq!(end_of_input(true), Err(LspFrameError::MissingContentLength));
}

#[test]
fn frame_header_names_the_body_length() {
    assert_eq!(frame_header(8).unwrap(), b"Content-Length: 8\r\n\r\n".to_vec());
    assert_eq!(frame_header(MAX_MESSAGE_BYTES + 1), Err(LspFrameError::MessageTooLarge));
    assert_eq!(
        LspFrameError::InvalidContentLength("x".to_owned()).message(),
        "invalid LSP Content-Length: x"
    );
}
