use panic_info::bitstream::{unpack, BitstreamUnpacker};
use panic_info::decoder::decode;
use panic_info::expand::{expand, Latch, TokenExpander};

/// Packs 7-bit codes, eight to every seven bytes, lowest bits first.
fn pack(codes: &[u8]) -> Vec<u8> {
    assert!(codes.len() % 8 != 7);
    let mut bytes = Vec::new();
    for group in codes.chunks(8) {
        let mut bits: u64 = 0;
        for (j, code) in group.iter().enumerate() {
            assert!(*code < 128);
            bits |= u64::from(*code) << (7 * j);
        }
        let n = if group.len() == 8 { 7 } else { group.len() };
        for i in 0..n {
            bytes.push((bits >> (8 * i)) as u8);
        }
    }
    bytes
}

fn active_expander() -> TokenExpander {
    let mut expander = TokenExpander::new();
    for c in "loaded kext".bytes() {
        expander.push(c);
    }
    assert_eq!(expander.latch(), Latch::Active);
    expander
}

#[test]
fn empty_buffer_decodes_to_empty_text() {
    assert_eq!(decode(&[]), "");
    assert_eq!(unpack(&[]), Vec::<u8>::new());
    assert_eq!(expand(&[]), "");
}

#[test]
fn whole_groups_give_eight_codes_each() {
    assert_eq!(unpack(&[0u8; 7]).len(), 8);
    assert_eq!(unpack(&[0x5Au8; 14]).len(), 16);
    assert_eq!(unpack(&[0xFFu8; 70]).len(), 80);
}

#[test]
fn partial_group_gives_one_code_per_byte() {
    assert_eq!(unpack(&[1, 2, 3]).len(), 3);
    assert_eq!(unpack(&[0u8; 10]).len(), 11);
    assert_eq!(unpack(&[0u8; 13]).len(), 14);
}

#[test]
fn unpack_exact_values() {
    assert_eq!(unpack(&[0xFF; 7]), vec![0x7F; 8]);
    assert_eq!(unpack(&[0x80]), vec![0x00]);
    assert_eq!(unpack(&[0x80, 0x00]), vec![0x00, 0x01]);
    assert_eq!(unpack(&[0x41]), vec![0x41]);
    // 'A' = 0x41, 'B' = 0x42: the second code starts in the top bit of the first byte.
    assert_eq!(unpack(&[0x41, 0x21]), vec![0x41, 0x42]);
    assert_eq!(
        unpack(&[0x01, 0x00, 0x00, 0x00, 0x00, 0x00, 0xFE]),
        vec![0x01, 0, 0, 0, 0, 0, 0, 0x7F]
    );
}

#[test]
fn unpacker_steps_through_a_group() {
    let mut unpacker = BitstreamUnpacker::new();
    for i in 0..6 {
        let (code, extra) = unpacker.feed(0xFF);
        assert_eq!(code, 0x7F, "byte {}", i);
        assert_eq!(extra, None);
    }
    assert_eq!(unpacker.feed(0xFF), (0x7F, Some(0x7F)));
    assert_eq!(unpacker.feed(0x81), (0x01, None));
    assert_eq!(unpacker.feed(0x00), (0x01, None));
}

#[test]
fn unpack_undoes_pack() {
    let texts: [&[u8]; 5] = [
        b"",
        b"a",
        b"panic(cpu 0 caller 0xffffff8000): tail",
        b"12345678",
        b"loaded kexts: >!AHDA 1.0 @kext.x |!F !Sy",
    ];
    for text in texts {
        if text.len() % 8 == 7 {
            continue;
        }
        assert_eq!(unpack(&pack(text)), text.to_vec());
    }
    let all: Vec<u8> = (0u8..128).collect();
    assert_eq!(unpack(&pack(&all)), all);
}

#[test]
fn seven_codes_in_the_last_group_unpack_with_one_more() {
    // Seven codes need seven bytes, and seven bytes always hold eight codes.
    let bytes = [0x41, 0x21, 0x11, 0x09, 0x05, 0x03, 0x01];
    assert_eq!(unpack(&bytes).len(), 8);
}

#[test]
fn trigger_then_prefix_code() {
    let packed = pack(b"loaded kext>");
    assert_eq!(unpack(&packed), b"loaded kext>".to_vec());
    assert_eq!(decode(&packed), "loaded kextcom.apple.driver.");
}

#[test]
fn trigger_then_pair() {
    let packed = pack(b"loaded kext!A");
    assert_eq!(decode(&packed), "loaded kextApple");
    assert_eq!(expand(b"loaded kext!A"), "loaded kextApple");
}

#[test]
fn pair_before_trigger_is_literal() {
    let packed = pack(b"!Axyz");
    assert_eq!(decode(&packed), "!Axyz");
    assert_eq!(expand(b"!Axyz"), "!Axyz");
    assert_eq!(expand(b">|$@!A!a loaded kex"), ">|$@!A!a loaded kex");
}

#[test]
fn latch_closes_exactly_at_the_phrase() {
    let mut expander = TokenExpander::new();
    assert_eq!(expander.latch(), Latch::Dormant);
    for c in "xx loaded kex".bytes() {
        expander.push(c);
        assert_eq!(expander.latch(), Latch::Dormant);
    }
    expander.push(b't');
    assert_eq!(expander.latch(), Latch::Active);
    assert_eq!(expander.output(), "xx loaded kext");
    expander.push(b's');
    assert_eq!(expander.latch(), Latch::Active);
    assert_eq!(expander.into_output(), "xx loaded kexts");
}

#[test]
fn text_before_the_phrase_is_kept_as_it_is() {
    assert_eq!(expand(b"a>b loaded kext>"), "a>b loaded kextcom.apple.driver.");
    assert_eq!(expand(b"!A loaded kext !A"), "!A loaded kext Apple");
}

#[test]
fn every_pair_expands() {
    let pairs: [(u8, &str); 9] = [
        (b'A', "Apple"),
        (b'a', "Action"),
        (b'B', "Bluetooth"),
        (b'C', "Controller"),
        (b'F', "Family"),
        (b'I', "Intel"),
        (b'P', "Profile"),
        (b'S', "Storage"),
        (b'U', "AppleUSB"),
    ];
    for (code, word) in pairs {
        let mut expander = active_expander();
        expander.push(b'!');
        assert_eq!(expander.output(), "loaded kext!");
        expander.push(code);
        assert_eq!(expander.into_output(), format!("loaded kext{}", word));
    }
}

#[test]
fn every_prefix_expands_whatever_came_before() {
    let prefixes: [(u8, &str); 4] = [
        (b'>', "com.apple.driver."),
        (b'|', "com.apple.iokit."),
        (b'$', "com.apple.security."),
        (b'@', "com.apple."),
    ];
    for (code, prefix) in prefixes {
        let mut plain = active_expander();
        plain.push(b'x');
        plain.push(code);
        assert_eq!(plain.into_output(), format!("loaded kextx{}", prefix));
        let mut after_bang = active_expander();
        after_bang.push(b'!');
        after_bang.push(code);
        assert_eq!(after_bang.into_output(), format!("loaded kext!{}", prefix));
        let mut direct = active_expander();
        direct.push(code);
        assert_eq!(direct.into_output(), format!("loaded kext{}", prefix));
    }
}

#[test]
fn placeholder_without_a_pair_stays() {
    assert_eq!(expand(b"loaded kext!x"), "loaded kext!x");
    assert_eq!(expand(b"loaded kext!!A"), "loaded kext!Apple");
    assert_eq!(expand(b"loaded kext!b"), "loaded kext!b");
    assert_eq!(expand(b"loaded kext!"), "loaded kext!");
}

#[test]
fn pair_needs_the_placeholder_directly_before() {
    assert_eq!(expand(b"loaded kextA"), "loaded kextA");
    assert_eq!(expand(b"loaded kext!xA"), "loaded kext!xA");
    // After an expansion the lookback is cleared.
    assert_eq!(expand(b"loaded kext!AA"), "loaded kextAppleA");
    assert_eq!(expand(b"loaded kext>A"), "loaded kextcom.apple.driver.A");
}

#[test]
fn a_kext_list_decodes() {
    let text = b"loaded kexts:\n>!AHDA\t283.15\n|IO!BSerialManager\n@nke.applicationfirewall\n$sandbox";
    let mut padded = text.to_vec();
    while padded.len() % 8 == 7 {
        padded.push(b'\n');
    }
    assert_eq!(
        decode(&pack(&padded)),
        "loaded kexts:\ncom.apple.driver.AppleHDA\t283.15\ncom.apple.iokit.IOBluetoothSerialManager\ncom.apple.nke.applicationfirewall\ncom.apple.security.sandbox"
    );
}

#[test]
fn codes_above_seven_bits_are_written_as_characters() {
    assert_eq!(expand(&[0xE9]), "\u{e9}");
    assert_eq!(expand(&[0x00]), "\u{0}");
}
