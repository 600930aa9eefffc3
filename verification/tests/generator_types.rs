use keygen::generators::{entropy_display, GenType};

#[test]
fn all_lists_types_in_menu_order() {
    assert_eq!(
        GenType::all(),
        &[
            GenType::Password,
            GenType::Pin,
            GenType::Passphrase,
            GenType::HexKey,
            GenType::Base64Key,
            GenType::WpaKey,
        ]
    );
}

#[test]
fn labels_and_descriptions() {
    assert_eq!(GenType::Password.label(), "Password");
    assert_eq!(GenType::Pin.label(), "PIN Code");
    assert_eq!(GenType::Passphrase.label(), "Passphrase");
    assert_eq!(GenType::HexKey.label(), "Hex Key");
    assert_eq!(GenType::Base64Key.label(), "Base64 Key");
    assert_eq!(GenType::WpaKey.label(), "WPA Key");
    assert_eq!(GenType::Pin.description(), "Numeric only: 4-12 digits");
    assert_eq!(GenType::WpaKey.description(), "63-char max ASCII for WPA2");
}

#[test]
fn length_limits_and_units() {
    let expected = [
        (GenType::Password, 16, 8, 64, "chars"),
        (GenType::Pin, 6, 4, 12, "chars"),
        (GenType::Passphrase, 6, 3, 12, "words"),
        (GenType::HexKey, 32, 8, 64, "bytes"),
        (GenType::Base64Key, 32, 8, 64, "bytes"),
        (GenType::WpaKey, 20, 8, 63, "chars"),
    ];
    for (t, def, min, max, unit) in expected {
        assert_eq!(t.default_length(), def);
        assert_eq!(t.min_length(), min);
        assert_eq!(t.max_length(), max);
        assert_eq!(t.length_unit(), unit);
        assert!(min <= def && def <= max);
    }
}

#[test]
fn entropy_display_rates() {
    assert_eq!(entropy_display(GenType::Password, 16), 96);
    assert_eq!(entropy_display(GenType::Pin, 6), 18);
    assert_eq!(entropy_display(GenType::Passphrase, 6), 54);
    assert_eq!(entropy_display(GenType::HexKey, 32), 256);
    assert_eq!(entropy_display(GenType::Base64Key, 32), 256);
    assert_eq!(entropy_display(GenType::WpaKey, 20), 120);
    assert_eq!(entropy_display(GenType::Password, 0), 0);
}
