use slideshow::codec::{select_codec, wrap_result};
use slideshow::{CodecKind, CodecPoll, ConvertError};

#[test]
fn png_suffix_selects_png_any_case() {
    assert_eq!(select_codec("a.PNG"), CodecKind::Png);
    assert_eq!(select_codec("a.png"), CodecKind::Png);
    assert_eq!(select_codec("a.PnG"), CodecKind::Png);
    // the check looks at the last three bytes, with or without a dot
    assert_eq!(select_codec("apng"), CodecKind::Png);
    assert_eq!(select_codec("png"), CodecKind::Png);
}

#[test]
fn everything_else_selects_mjpeg() {
    assert_eq!(select_codec("a.jpg"), CodecKind::Mjpeg);
    assert_eq!(select_codec("a.jpeg"), CodecKind::Mjpeg);
    assert_eq!(select_codec("a"), CodecKind::Mjpeg);
    assert_eq!(select_codec(""), CodecKind::Mjpeg);
    assert_eq!(select_codec("png.jpg"), CodecKind::Mjpeg);
}

#[test]
fn drain_signals_are_not_errors() {
    assert_eq!(wrap_result(CodecPoll::Produced), Ok(true));
    assert_eq!(wrap_result(CodecPoll::Again), Ok(false));
    assert_eq!(wrap_result(CodecPoll::Eof), Ok(false));
}

#[test]
fn other_codec_failures_are_fatal() {
    assert_eq!(wrap_result(CodecPoll::Failed(-22)), Err(ConvertError::CodecError(-22)));
    assert_eq!(wrap_result(CodecPoll::Failed(1)), Err(ConvertError::CodecError(1)));
}
