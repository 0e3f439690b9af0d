use nightcore::is_supported_extension;

#[test]
fn accepts_supported_extensions_in_any_case() {
    for ext in ["mp3", "wav", "flac", "MP3", "Wav", "FLAC", "fLaC"] {
        assert!(is_supported_extension(ext), "{}", ext);
    }
}

#[test]
fn rejects_other_extensions() {
    for ext in ["", "mp", "mp33", "ogg", "aac", "wave", "fla", "m p3", "\u{212a}"] {
        assert!(!is_supported_extension(ext), "{}", ext);
    }
}
