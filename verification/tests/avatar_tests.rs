use solute::AvatarError;
use solute::Avatar;

#[test]
fn derive_cells_full_scenario() {
    // nickname "aiocat": SHA-224 fingerprint f39fc471..., foreground
    // (0xf3, 0xc4, 0x9f), 19 cells against the default white background
    let mut avatar = Avatar::new("aiocat");
    let cells = avatar.derive_cells().unwrap();
    assert_eq!(avatar.avatar_color, (0xf3, 0xc4, 0x9f));
    assert_eq!(cells.len(), 19);
    let fp = avatar.hash.clone();
    let bytes = fp.as_bytes();
    for (i, cell) in cells.iter().enumerate() {
        assert_eq!(cell.x, ((i % 5) * 50) as u32);
        assert_eq!(cell.y, ((i / 5) * 50) as u32);
        assert_eq!(cell.width, cell.x + 50);
        assert_eq!(cell.height, cell.y + 50);
        let end = (3 * i + 3).min(fp.len());
        let chunk = std::str::from_utf8(&bytes[3 * i..end]).unwrap();
        let value = i64::from_str_radix(chunk, 16).unwrap();
        let expected = if value % 2 == 0 { avatar.avatar_color } else { (255, 255, 255) };
        assert_eq!(cell.color, expected, "chunk {} ({})", i, chunk);
    }
}

#[test]
fn derive_cells_twice_is_identical() {
    let mut avatar = Avatar::new("aiocat");
    avatar.set_background_color(1, 2, 3);
    let first = avatar.derive_cells().unwrap();
    let color_after_first = avatar.avatar_color;
    let hash_after_first = avatar.hash.clone();
    let second = avatar.derive_cells().unwrap();
    assert_eq!(first, second);
    assert_eq!(avatar.avatar_color, color_after_first);
    assert_eq!(avatar.hash, hash_after_first);
    assert_eq!(avatar.background_color, (1, 2, 3));
}

#[test]
fn derive_cells_uses_the_configured_background() {
    let mut avatar = Avatar::new("aiocat");
    avatar.set_background_color(7, 8, 9);
    let cells = avatar.derive_cells().unwrap();
    for cell in cells.iter() {
        assert!(cell.color == avatar.avatar_color || cell.color == (7, 8, 9));
    }
    assert!(cells.iter().any(|c| c.color == (7, 8, 9)));
    assert!(cells.iter().any(|c| c.color == avatar.avatar_color));
}

#[test]
fn derive_cells_reports_a_malformed_front() {
    let mut avatar = Avatar::new("aiocat");
    avatar.hash = String::from("xyz");
    assert_eq!(avatar.derive_cells(), Err(AvatarError::MalformedFragment));
    assert_eq!(avatar.avatar_color, (0, 0, 0));
}

#[test]
fn derive_cells_reports_a_malformed_tail() {
    let mut avatar = Avatar::new("aiocat");
    avatar.hash = String::from("ff00a1ZZ");
    assert_eq!(avatar.derive_cells(), Err(AvatarError::MalformedFingerprint));
    // the front was still valid, so the foreground color was derived
    assert_eq!(avatar.avatar_color, (255, 161, 0));
}
