use sonic_deck::settings::default_minimize_to_tray;
use sonic_deck::sounds::{uuid_from_nanos, uuid_v4};
use sonic_deck::vbcable::{DefaultDeviceManager, SavedDefaults, VbCableInfo, VbCableStatus};
use sonic_deck::{Category, CategoryId, SoundId};

#[test]
fn test_sound_id_new_creates_unique_ids() {
    let id1 = SoundId::new();
    let id2 = SoundId::new();
    // IDs should be different (with high probability)
    assert_ne!(id1.as_str(), id2.as_str());
}

#[test]
fn test_sound_id_as_str_returns_inner_string() {
    let id = SoundId::new();
    assert!(!id.as_str().is_empty());
}

#[test]
fn test_sound_id_default_creates_new_id() {
    let id = SoundId::default();
    assert!(!id.as_str().is_empty());
}

#[test]
fn test_sound_id_equality() {
    let id1 = SoundId::new();
    let id2 = id1.clone();
    assert_eq!(id1, id2);
}

#[test]
fn test_category_id_new_creates_unique_ids() {
    let id1 = CategoryId::new();
    let id2 = CategoryId::new();
    assert_ne!(id1.as_str(), id2.as_str());
}

#[test]
fn test_category_id_from_string() {
    let id = CategoryId::from_string("test-category".to_string());
    assert_eq!(id.as_str(), "test-category");
}

#[test]
fn test_category_id_as_str() {
    let id = CategoryId::from_string("my-category".to_string());
    assert_eq!(id.as_str(), "my-category");
}

#[test]
fn test_category_id_default() {
    let id = CategoryId::default();
    assert!(!id.as_str().is_empty());
}

#[test]
fn test_uuid_v4_format() {
    let uuid = uuid_v4();
    // UUID format: xxxxxxxx-xxxx-4xxx-xxxx-xxxxxxxxxxxx
    let parts: Vec<&str> = uuid.split('-').collect();
    assert_eq!(parts.len(), 5);
    assert_eq!(parts[0].len(), 8);
    assert_eq!(parts[1].len(), 4);
    assert_eq!(parts[2].len(), 4);
    assert_eq!(parts[3].len(), 4);
    assert_eq!(parts[4].len(), 12);
}

#[test]
fn test_uuid_v4_version_marker() {
    let uuid = uuid_v4();
    let parts: Vec<&str> = uuid.split('-').collect();
    // Third part should start with '4' (UUID v4)
    assert!(parts[2].starts_with('4'));
}

#[test]
fn test_uuid_v4_uniqueness() {
    let uuids: Vec<String> = (0..100).map(|_| uuid_v4()).collect();
    let unique_count = uuids.iter().collect::<std::collections::HashSet<_>>().len();
    // All generated UUIDs should be unique
    assert_eq!(unique_count, 100);
}

#[test]
fn test_default_minimize_to_tray() {
    assert!(default_minimize_to_tray());
}

#[test]
fn test_default_device_manager_creation() {
    // Test that we can create a manager with None
    let manager = DefaultDeviceManager {
        saved_device_id: None,
    };
    assert!(manager.get_saved_device_id().is_none());

    // Test with a device ID
    let manager = DefaultDeviceManager {
        saved_device_id: Some("test-device-id".to_string()),
    };
    assert_eq!(
        manager.get_saved_device_id(),
        Some("test-device-id".to_string())
    );
}

fn reference_uuid(timestamp: u128) -> String {
    let random_part: u64 = (timestamp as u64)
        .wrapping_mul(0x5DEECE66D)
        .wrapping_add(0xB);
    format!(
        "{:08x}-{:04x}-4{:03x}-{:04x}-{:012x}",
        (timestamp >> 64) as u32,
        ((timestamp >> 48) as u16),
        random_part as u16 & 0x0FFF,
        ((random_part >> 16) as u16 & 0x3FFF) | 0x8000,
        random_part >> 32
    )
}

#[test]
fn test_uuid_from_nanos_exact_values() {
    assert_eq!(uuid_from_nanos(0), "00000000-0000-400b-8000-000000000000");
    assert_eq!(uuid_from_nanos(1), "00000000-0000-4678-9eec-000000000005");
    assert_eq!(uuid_from_nanos(u128::MAX), reference_uuid(u128::MAX));
}

#[test]
fn test_uuid_from_nanos_agrees_with_formatting() {
    let mut t: u128 = 1_700_000_000_000_000_000;
    for step in 0..2000u128 {
        assert_eq!(uuid_from_nanos(t), reference_uuid(t), "at {}", t);
        t = t.wrapping_mul(6364136223846793005).wrapping_add(1442695040888963407 + step);
    }
    for shift in 0..128 {
        let t = 1u128 << shift;
        assert_eq!(uuid_from_nanos(t), reference_uuid(t));
        assert_eq!(uuid_from_nanos(t - 1), reference_uuid(t - 1));
    }
}

#[test]
fn test_uuid_variant_bits() {
    for t in [0u128, 7, 1 << 40, u128::MAX / 3] {
        let uuid = uuid_from_nanos(t);
        assert_eq!(uuid.len(), 36);
        let fourth = &uuid[19..23];
        let value = u16::from_str_radix(fourth, 16).unwrap();
        assert_eq!(value & 0xC000, 0x8000);
        assert_eq!(uuid.as_bytes()[14], b'4');
    }
}

#[test]
fn test_category_holds_its_fields() {
    let category = Category {
        id: CategoryId::from_string("default".to_string()),
        name: "General".to_string(),
        icon: Some("note".to_string()),
        sort_order: 0,
    };
    assert_eq!(category.id.as_str(), "default");
    assert_eq!(category.name, "General");
    assert_eq!(category.icon.as_deref(), Some("note"));
    assert_eq!(category.sort_order, 0);
}

#[test]
fn test_vbcable_values() {
    let info = VbCableInfo {
        output_device: "CABLE Input".to_string(),
        input_device: Some("CABLE Output".to_string()),
    };
    let status = VbCableStatus::Installed { info: info.clone() };
    match status {
        VbCableStatus::Installed { info: held } => {
            assert_eq!(held.output_device, "CABLE Input");
            assert_eq!(held.input_device.as_deref(), Some("CABLE Output"));
        }
        VbCableStatus::NotInstalled => panic!("expected an installed cable"),
    }
    let saved = SavedDefaults {
        render_console: Some("a".to_string()),
        render_communications: None,
        capture_console: Some("b".to_string()),
        capture_communications: None,
    };
    assert_eq!(saved.render_console.as_deref(), Some("a"));
    assert_eq!(saved.capture_console.as_deref(), Some("b"));
    assert!(saved.render_communications.is_none() && saved.capture_communications.is_none());
}
