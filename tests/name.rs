use nautica_downloader::name::{choose_name, decode_entry_name, NameChoice};

fn name_of(choice: NameChoice) -> Option<String> {
    match choice {
        NameChoice::Detected(t) => Some(t),
        NameChoice::ContainerFallback(t) => Some(t),
        NameChoice::Rejected => None,
    }
}

#[test]
fn clean_decoding_is_preferred() {
    let c = choose_name("曲.ksh".to_string(), false, Some("fallback.ksh".to_string()));
    assert!(matches!(c, NameChoice::Detected(ref t) if t == "曲.ksh"));
}

#[test]
fn failed_decoding_falls_back_to_container() {
    let c = choose_name("\u{fffd}.ksh".to_string(), true, Some("fallback.ksh".to_string()));
    assert!(matches!(c, NameChoice::ContainerFallback(ref t) if t == "fallback.ksh"));
}

#[test]
fn failed_decoding_without_container_name_is_rejected() {
    let c = choose_name("\u{fffd}.ksh".to_string(), true, None);
    assert!(matches!(c, NameChoice::Rejected));
}

#[test]
fn ascii_name_decodes_unchanged() {
    let c = decode_entry_name(b"Advanced.ksh", None);
    assert!(matches!(c, NameChoice::Detected(_)));
    assert_eq!(name_of(c), Some("Advanced.ksh".to_string()));
}

#[test]
fn shift_jis_name_round_trips() {
    let logical = "チューリングラブ feat.Sou.ksh";
    let (raw, _, unmappable) = encoding_rs::SHIFT_JIS.encode(logical);
    assert!(!unmappable);
    assert_ne!(raw.as_ref(), logical.as_bytes());
    let c = decode_entry_name(&raw, Some("mangled.ksh".to_string()));
    assert!(matches!(c, NameChoice::Detected(_)));
    let name = name_of(c).unwrap();
    assert_eq!(name, logical);
    assert!(!name.contains('\u{fffd}'));
}

#[test]
fn utf8_name_round_trips() {
    let logical = "チューリングラブ feat.Sou.ogg";
    let c = decode_entry_name(logical.as_bytes(), None);
    assert_eq!(name_of(c), Some(logical.to_string()));
}
