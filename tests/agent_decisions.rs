use lldp::agent::{FrameVerdict, LLDPAgent};
use lldp::error::LldpError;

const FOREIGN: &[u8] = b"\x01\x80\xc2\x00\x00\x0e\xff\xee\xdd\xcc\xbb\xaa\x88\xcc\x02\x07\x04\xff\xee\xdd\xcc\xbb\xaa\x04\x07\x03\xff\xee\xdd\xcc\xbb\xaa\x06\x02\x00x\x00\x00";

fn agent() -> LLDPAgent {
    LLDPAgent::new([170, 187, 204, 221, 238, 255], String::from("lo"), 1000).unwrap()
}

#[test]
fn accepts_all_lldp_destinations() {
    let a = agent();
    for last in [0x00u8, 0x03, 0x0e] {
        let mut f = FOREIGN.to_vec();
        f[5] = last;
        assert!(a.accepts(&f));
    }
}

#[test]
fn ignores_filtered_frames() {
    let a = agent();
    let mut own = FOREIGN.to_vec();
    own[6..12].copy_from_slice(&[170, 187, 204, 221, 238, 255]);
    let mut wrong_destination = FOREIGN.to_vec();
    wrong_destination[5] = 0x01;
    let mut wrong_type = FOREIGN.to_vec();
    wrong_type[13] = 0x00;
    let short = FOREIGN[..13].to_vec();
    for f in [own, wrong_destination, wrong_type, short] {
        assert!(matches!(a.classify(&f), FrameVerdict::Ignored));
    }
}

#[test]
fn drops_malformed_data_unit() {
    let a = agent();
    let mut f = FOREIGN[..14].to_vec();
    f.extend_from_slice(b"\x06\x02\x00\x78");
    match a.classify(&f) {
        FrameVerdict::Malformed(e) => assert_eq!(e, LldpError::OrderingViolation),
        v => panic!("expected a malformed frame, got {:?}", v),
    }
}

#[test]
fn announces_when_interval_passed() {
    let mut a = agent();
    let ignored = b"\x00\x00\x00\x00\x00\x00";
    let s = a.step(ignored, 500, false);
    assert!(s.announce.is_none() && !s.stop);
    let s = a.step(ignored, 1000, false);
    assert!(s.announce.is_none());
    let s = a.step(ignored, 1001, false);
    assert_eq!(s.announce, Some(a.announce()));
    assert_eq!(a.last_announce_ms, 1001);
    let s = a.step(FOREIGN, 1500, false);
    assert!(s.announce.is_none() && !s.stop);
    assert!(matches!(s.verdict, FrameVerdict::Accepted(_)));
    let s = a.step(ignored, 2002, false);
    assert!(s.announce.is_some());
}

#[test]
fn stops_after_first_accepted() {
    let mut a = agent();
    let s = a.step(b"\x00", 5000, true);
    assert!(!s.stop);
    assert!(s.announce.is_some());
    let s = a.step(FOREIGN, 9000, true);
    assert!(s.stop && s.announce.is_none());
    assert_eq!(a.last_announce_ms, 5000);
}

#[test]
fn interface_name_too_long() {
    let r = LLDPAgent::new([1, 2, 3, 4, 5, 6], "i".repeat(256), 1000);
    assert_eq!(r.unwrap_err(), LldpError::InvalidEncoding);
}
