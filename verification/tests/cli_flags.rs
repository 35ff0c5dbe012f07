use rehuman::cli::{check_rehuman_flags, RehumanFlags};

#[test]
fn clap_rejects_stream_and_inplace_together() {
    // rehuman --stream --inplace input.txt
    let parsed = check_rehuman_flags(&RehumanFlags {
        stream: true,
        inplace: true,
        input: true,
        ..RehumanFlags::default()
    });
    assert!(parsed.is_err(), "expected clap conflict error");
}

#[test]
fn clap_rejects_print_config_with_processing_flags() {
    // rehuman --print-config --stats
    let parsed = check_rehuman_flags(&RehumanFlags {
        print_config: true,
        stats: true,
        ..RehumanFlags::default()
    });
    assert!(parsed.is_err(), "expected clap conflict error");
}
