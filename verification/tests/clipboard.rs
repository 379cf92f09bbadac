use az_tui::clipboard::{base64, commands, copied, first_that_works, next_command, osc52};

#[test]
fn base64_matches_the_standard_alphabet_and_padding() {
    // RFC 4648's own vectors.
    assert_eq!(base64(b""), "");
    assert_eq!(base64(b"f"), "Zg==");
    assert_eq!(base64(b"fo"), "Zm8=");
    assert_eq!(base64(b"foo"), "Zm9v");
    assert_eq!(base64(b"foob"), "Zm9vYg==");
    assert_eq!(base64(b"fooba"), "Zm9vYmE=");
    assert_eq!(base64(b"foobar"), "Zm9vYmFy");
}

#[test]
fn the_osc_52_bytes_are_exactly_what_a_terminal_expects() {
    assert_eq!(osc52("hello"), "\x1b]52;c;aGVsbG8=\x07");
    assert_eq!(osc52("hello").as_bytes(), b"\x1b]52;c;aGVsbG8=\x07");
}

#[test]
fn a_value_with_padding_and_a_trailing_newline_survives_the_encoding() {
    // Two shapes the live checklist names: a value that is itself base64 with
    // `=` padding, and one that ends in a newline.
    for value in ["c2VjcmV0==", "line\n", "λ 值 🔑"] {
        let encoded = osc52(value);
        assert!(encoded.starts_with("\x1b]52;c;") && encoded.ends_with('\x07'));
        assert!(
            !encoded.contains(value),
            "the value goes out encoded, not raw"
        );
    }
}

#[test]
fn every_letter_of_the_alphabet_is_reached() {
    let bytes: Vec<u8> = vec![
        0x00, 0x10, 0x83, 0x10, 0x51, 0x87, 0x20, 0x92, 0x8b, 0x30, 0xd3, 0x8f, 0x41, 0x14, 0x93,
        0x51, 0x55, 0x97, 0x61, 0x96, 0x9b, 0x71, 0xd7, 0x9f, 0x82, 0x18, 0xa3, 0x92, 0x59, 0xa7,
        0xa2, 0x9a, 0xab, 0xb2, 0xdb, 0xaf, 0xc3, 0x1c, 0xb3, 0xd3, 0x5d, 0xb7, 0xe3, 0x9e, 0xbb,
        0xf3, 0xdf, 0xbf,
    ];
    assert_eq!(
        base64(&bytes),
        "ABCDEFGHIJKLMNOPQRSTUVWXYZabcdefghijklmnopqrstuvwxyz0123456789+/"
    );
}

#[test]
fn a_command_that_is_not_there_is_an_error_rather_than_a_panic() {
    let ran = vec![Err("failed to start az-tui-no-such-clipboard".to_owned())];
    let error = first_that_works(&ran).unwrap_err();
    assert!(error.contains("az-tui-no-such-clipboard"));
    assert!(first_that_works(&Vec::new()).is_err());
}

#[test]
fn the_commands_worth_trying_go_by_the_machine() {
    let named = |mac: bool, release: Option<&str>| -> Vec<String> {
        commands(mac, release)
            .into_iter()
            .map(|(program, arguments)| format!("{program} {}", arguments.join(" ")))
            .collect()
    };
    let linux = [
        "wl-copy --trim-newline",
        "xclip -selection clipboard",
        "xsel --clipboard --input",
    ];
    assert_eq!(named(true, None), ["pbcopy "]);
    assert_eq!(named(true, Some("4.4.0-Microsoft")), ["pbcopy "]);
    assert_eq!(named(false, None), linux);
    assert_eq!(named(false, Some("6.8.0-generic")), linux);
    for release in ["4.4.0-19041-Microsoft", "5.15.90.1-microsoft-standard-WSL2\n"] {
        let tried = named(false, Some(release));
        assert_eq!(tried[0], "clip.exe ");
        assert_eq!(tried[1..], linux);
    }
}

#[test]
fn commands_are_run_in_turn_until_one_works() {
    let failed = |text: &str| Err(text.to_owned());
    assert_eq!(next_command(3, &vec![]), Some(0));
    assert_eq!(next_command(3, &vec![failed("a")]), Some(1));
    assert_eq!(next_command(3, &vec![failed("a"), Ok(())]), None);
    assert_eq!(next_command(2, &vec![failed("a"), failed("b")]), None);
    assert_eq!(next_command(0, &vec![]), None);
}

#[test]
fn a_copy_went_where_either_channel_took_it() {
    let failed = |text: &str| Err(text.to_owned());
    assert_eq!(copied(false, &vec![failed("a"), Ok(())]), Ok(()));
    assert_eq!(copied(true, &vec![failed("a")]), Ok(()));
    assert_eq!(copied(true, &vec![]), Ok(()));
    assert_eq!(
        copied(false, &vec![failed("a"), failed("b")]),
        Err("no clipboard command found and the terminal may not support OSC 52: b".to_owned()),
        "the last one is the nearest to working"
    );
    assert_eq!(
        copied(false, &vec![]),
        Err(
            "no clipboard command found and the terminal may not support OSC 52: \
             no clipboard command available"
                .to_owned()
        )
    );
}
