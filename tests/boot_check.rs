use otlib_wrapper::boot::{classify_boot_match, BootCheck, BootStep};
use otlib_wrapper::error::BootError;

fn run(marker: &str, chunks: &[(&[u8], u64)]) -> BootStep {
    let mut c = BootCheck::new(marker, 100, 0).unwrap();
    let mut last = BootStep::Continue;
    for (data, t) in chunks {
        last = c.step(data, *t);
        if c.is_finished() {
            break;
        }
    }
    last
}

#[test]
fn boot_with_caller_marker() {
    let step = run("Owner FW up", &[(b"ROM: ok\r\n ROM_EXT: 0.1\r\n", 0), (b"Owner FW up\r\n", 5)]);
    assert_eq!(step, BootStep::Booted);
}

#[test]
fn boot_marker_in_same_read_as_rom_ext() {
    let step = run("Owner FW up", &[(b"\nROM_EXT:1\r\nOwner FW up", 0)]);
    assert_eq!(step, BootStep::Booted);
}

#[test]
fn boot_uds_certificate_failure() {
    let step = run("", &[(b" ROM_EXT:1\r\n", 0), (b"UDS certificate not valid", 1)]);
    assert_eq!(step, BootStep::Failed(BootError::InvalidUdsCertificate));
}

#[test]
fn boot_fault_report() {
    let step = run("never", &[(b" ROM_EXT:1\r\n", 0), (b"BFV:0142500d\r\n", 1)]);
    assert_eq!(step, BootStep::Failed(BootError::BootFault));
}

#[test]
fn boot_timeout_without_marker_is_success() {
    let step = run("", &[(b" ROM_EXT:1\r\n", 10), (b"all quiet", 50), (b"", 110)]);
    assert_eq!(step, BootStep::Booted);
}

#[test]
fn boot_timeout_with_marker_fails() {
    let step = run("Owner FW up", &[(b" ROM_EXT:1\r\n", 10), (b"", 110)]);
    assert_eq!(step, BootStep::Failed(BootError::Timeout));
}

#[test]
fn rom_ext_missing_times_out() {
    let step = run("", &[(b"ROM_EXT", 0), (b"", 100)]);
    assert_eq!(step, BootStep::Failed(BootError::RomExtTimeout));
}

#[test]
fn invalid_caller_marker_is_refused() {
    assert_eq!(BootCheck::new("(", 100, 0).err(), Some(BootError::InvalidPattern));
}

#[test]
fn classify_matched_text() {
    assert_eq!(classify_boot_match(b"UDS certificate not valid"), BootStep::Failed(BootError::InvalidUdsCertificate));
    assert_eq!(classify_boot_match(b"BFV:1\r\n"), BootStep::Failed(BootError::BootFault));
    assert_eq!(classify_boot_match(b"BFV"), BootStep::Booted);
    assert_eq!(classify_boot_match(b"hello"), BootStep::Booted);
}
