use cliscrape::transcript::{preprocess_ios_transcript, preprocess_ios_transcript_with_warnings, segment_transcript};

#[test]
fn segments_multi_command_transcript_and_strips_prompts_and_echoes() {
    let raw = "Router# show ip interface brief\nInterface              IP-Address      OK? Method Status                Protocol\nGigabitEthernet0/0     10.0.0.1        YES manual up                    up\nRouter# show version\nCisco IOS Software, ...\nRouter#\n";
    let blocks = preprocess_ios_transcript(raw);
    assert_eq!(blocks.len(), 2);
    assert!(!blocks[0].contains("Router#"));
    assert!(!blocks[1].contains("Router#"));
    assert!(blocks[0].contains("GigabitEthernet0/0"));
    assert!(blocks[1].contains("Cisco IOS Software"));
}

#[test]
fn strips_single_prompt_command_echo_at_start_even_without_trailing_prompt() {
    let raw = "Router# show version\nCisco IOS Software, ...\nROM: Bootstrap\n";
    let blocks = preprocess_ios_transcript(raw);
    assert_eq!(blocks.len(), 1);
    assert!(!blocks[0].contains("Router# show version"));
    assert!(blocks[0].contains("Cisco IOS Software"));
}

#[test]
fn does_not_trigger_on_single_prompt_like_line_when_confidence_is_low() {
    let raw = "Some output line\nRouter#\nMore output\n";
    let blocks = preprocess_ios_transcript(raw);
    assert_eq!(blocks.len(), 1);
    assert_eq!(blocks[0], raw);
}

#[test]
fn recognizes_config_mode_prompts_as_same_hostname_base() {
    let raw = "Router(config)# show running-config\nBuilding configuration...\nCurrent configuration : 1234 bytes\nRouter(config)#\n";
    let blocks = preprocess_ios_transcript(raw);
    assert_eq!(blocks.len(), 1);
    assert!(!blocks[0].contains("Router(config)#"));
    assert!(blocks[0].contains("Building configuration"));
    assert!(blocks[0].contains("Current configuration"));
}

#[test]
fn strips_ansi_escape_sequences_and_warns() {
    let raw = "Host# show \x1b[31mcolored\x1b[0m output\nsome data";
    let (blocks, warnings) = preprocess_ios_transcript_with_warnings(raw);
    assert_eq!(warnings.len(), 1);
    assert!(warnings[0].contains("ANSI"));
    for b in &blocks {
        assert!(!b.contains("\x1b["));
    }
    for b in preprocess_ios_transcript(raw) {
        assert!(!b.contains("\x1b["));
    }
}

#[test]
fn no_warning_when_no_ansi_sequences() {
    let raw = "Host# show plain output\nsome data";
    let (_blocks, warnings) = preprocess_ios_transcript_with_warnings(raw);
    assert!(warnings.is_empty());
}

#[test]
fn lone_escape_is_stripped() {
    let blocks = preprocess_ios_transcript("\x1b");
    assert!(blocks.iter().all(|b| !b.contains('\x1b')));
    assert_eq!(segment_transcript("a\nb"), vec!["a\nb".to_string()]);
}

#[test]
fn text_without_prompts_is_one_unchanged_block() {
    let raw = "Interface Eth0 is up\nInterface Eth1 is down";
    assert_eq!(preprocess_ios_transcript(raw), vec![raw.to_string()]);
    assert_eq!(preprocess_ios_transcript(""), vec!["".to_string()]);
}
