use codex_repair::win32::{
    codex_package_dirs, decode_utf16, wide_nul, LUID, NAME_AT, NAME_LENGTH_AT,
    SE_PRIVILEGE_ENABLED, TOKEN_PRIVILEGES,
};

/// One `FILE_ID_BOTH_DIR_INFO` record: next-entry offset at 0, name length at 60,
/// name from 104 on, with no terminator.
fn record(name: &str, next: u32, pad: usize) -> Vec<u8> {
    let mut r = vec![0u8; 104];
    r[0..4].copy_from_slice(&next.to_le_bytes());
    let units: Vec<u16> = name.encode_utf16().collect();
    let len = (units.len() * 2) as u32;
    r[60..64].copy_from_slice(&len.to_le_bytes());
    // Fields between the two that the walk must not read as the name.
    r[56..60].copy_from_slice(&0x10u32.to_le_bytes());
    r[94] = 12;
    for u in units {
        r.extend_from_slice(&u.to_le_bytes());
    }
    r.extend(std::iter::repeat(0u8).take(pad));
    r
}

fn buffer(names: &[&str]) -> Vec<u8> {
    let mut buf = Vec::new();
    for (i, name) in names.iter().enumerate() {
        let size = 104 + name.encode_utf16().count() * 2 + 6;
        let next = if i + 1 == names.len() { 0 } else { size as u32 };
        buf.extend(record(name, next, 6));
    }
    buf.extend(vec![0u8; 16]);
    buf
}

#[test]
fn record_layout_offsets() {
    assert_eq!(NAME_LENGTH_AT, 60);
    assert_eq!(NAME_AT, 104);
}

#[test]
fn package_dirs_are_filtered_and_joined() {
    let buf = buffer(&[
        ".",
        "..",
        "OpenAI.Codex_1.2.0.0_x64__abc",
        "OpenAI.Codex_1.2.0.0_x64__abc.msix",
        "Microsoft.Foo_1.0_x64__xyz",
        "OpenAI.Codex_9_x64__z.Appx",
        "OpenAI.Codex_9_x64__z.eappx",
        "OpenAI.Codex_1.1.0.0_x64__abc",
    ]);
    let dirs = codex_package_dirs(&buf, "D:/Apps");
    assert_eq!(
        dirs,
        vec![
            "D:/Apps/OpenAI.Codex_1.2.0.0_x64__abc".to_string(),
            "D:/Apps/OpenAI.Codex_1.1.0.0_x64__abc".to_string(),
        ]
    );
    let dirs = codex_package_dirs(&buf, "C:\\Program Files\\WindowsApps\\");
    assert_eq!(dirs[0], "C:\\Program Files\\WindowsApps\\OpenAI.Codex_1.2.0.0_x64__abc");
}

#[test]
fn walk_stops_at_short_tail_and_zero_next() {
    let mut buf = record("OpenAI.Codex_1", 5000, 0);
    buf.extend(record("OpenAI.Codex_2", 0, 0));
    assert_eq!(codex_package_dirs(&buf, "d"), vec!["d/OpenAI.Codex_1".to_string()]);
    assert!(codex_package_dirs(&[0u8; 103], "d").is_empty());
    assert!(codex_package_dirs(&[], "d").is_empty());
}

#[test]
fn name_running_past_the_buffer_is_skipped() {
    let mut buf = record("OpenAI.Codex_1", 0, 0);
    buf.truncate(buf.len() - 2);
    assert!(codex_package_dirs(&buf, "d").is_empty());
}

#[test]
fn odd_name_length_drops_the_last_byte() {
    let mut buf = record("OpenAI.Codex_1", 0, 0);
    buf[60] += 1;
    buf.push(0);
    assert_eq!(codex_package_dirs(&buf, "d"), vec!["d/OpenAI.Codex_1".to_string()]);
}

#[test]
fn wide_text_round_trip() {
    let w = wide_nul("SeBackupPrivilege");
    let mut expected: Vec<u16> = "SeBackupPrivilege".encode_utf16().collect();
    expected.push(0);
    assert_eq!(w, expected);
    let s = "C:\\Program Files\\WindowsApps\\😀é";
    let w = wide_nul(s);
    assert_eq!(w.len(), s.encode_utf16().count() + 1);
    let back = decode_utf16(&w, w.len() - 1).unwrap();
    assert_eq!(back.into_iter().collect::<String>(), s);
}

#[test]
fn unpaired_surrogate_is_rejected() {
    let v: Vec<u16> = vec![0x41, 0xD800, 0x42];
    assert!(decode_utf16(&v, 3).is_none());
    let v: Vec<u16> = vec![0x41, 0xDC00];
    assert!(decode_utf16(&v, 2).is_none());
    let v: Vec<u16> = vec![0xD83D, 0xDE00, 0x41];
    assert_eq!(decode_utf16(&v, 3).unwrap(), vec!['😀', 'A']);
    assert_eq!(decode_utf16(&v, 1), None);
}

#[test]
fn privilege_record_enables_one_privilege() {
    let luid = LUID { LowPart: 17, HighPart: -3 };
    let tp = TOKEN_PRIVILEGES::enabling(luid);
    assert_eq!(tp.PrivilegeCount, 1);
    assert_eq!(tp.Privileges[0].Luid.LowPart, 17);
    assert_eq!(tp.Privileges[0].Luid.HighPart, -3);
    assert_eq!(tp.Privileges[0].Attributes, SE_PRIVILEGE_ENABLED);
    assert_eq!(SE_PRIVILEGE_ENABLED, 2);
    let z = LUID::zero();
    assert_eq!((z.LowPart, z.HighPart), (0, 0));
}
