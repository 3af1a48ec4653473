//! Hardware addresses of GET channels and the detector elements behind them.
use vstd::prelude::*;

use vstd::string::StringSliceAdditionalSpecFns;

use crate::error::DetectorError;

verus! {

/// The detector element a GET channel reads out.
#[derive(Debug, Clone, Copy, PartialEq, Eq, Structural, Hash)]
pub enum Detector {
    SiUpstreamFront(usize),
    SiUpstreamBack(usize),
    SiDownstreamFront(usize),
    SiDownstreamBack(usize),
    Pad(usize),
}

/// The detector named by a channel-map keyword, if the keyword is known.
pub open spec fn detector_of(keyword: Seq<char>, channel: usize) -> Option<Detector> {
    if keyword == "pad"@ {
        Some(Detector::Pad(channel))
    } else if keyword == "si_upstream_front"@ {
        Some(Detector::SiUpstreamFront(channel))
    } else if keyword == "si_upstream_back"@ {
        Some(Detector::SiUpstreamBack(channel))
    } else if keyword == "si_downstream_front"@ {
        Some(Detector::SiDownstreamFront(channel))
    } else if keyword == "si_downstream_back"@ {
        Some(Detector::SiDownstreamBack(channel))
    } else {
        None
    }
}

/// `a` and `b` hold the same text.
pub fn str_eq(a: &str, b: &str) -> (r: bool)
    ensures
        r == (a@ == b@),
{
    let x = a.as_bytes();
    let y = b.as_bytes();
    let mut same = x.len() == y.len();
    let mut i: usize = 0;
    while same && i < x.len()
        invariant
            x@ == a.spec_bytes(),
            y@ == b.spec_bytes(),
            same ==> x@.len() == y@.len(),
            i <= x@.len(),
            same <==> (x@.len() == y@.len() && forall|k: int| 0 <= k < i ==> x@[k] == y@[k]),
        decreases x@.len() - i,
    {
        if x[i] != y[i] {
            same = false;
        }
        i = i + 1;
    }
    proof {
        vstd::utf8::encode_utf8_decode_utf8(a@);
        vstd::utf8::encode_utf8_decode_utf8(b@);
        if same {
            assert(x@ =~= y@);
        } else if a@ == b@ {
            assert(x@ == y@);
        }
    }
    same
}

impl Detector {
    /// The detector for a keyword (`pad`, `si_upstream_front`,
    /// `si_upstream_back`, `si_downstream_front`, `si_downstream_back`) and
    /// a channel.
    pub fn from_str_channel(det_str: &str, channel: usize) -> (r: Result<Self, DetectorError>)
        ensures
            match detector_of(det_str@, channel) {
                Some(d) => r == Ok::<Detector, DetectorError>(d),
                None => r matches Err(DetectorError::InvalidKeyword(s)) && s@ == det_str@,
            },
    {
        if str_eq(det_str, "pad") {
            Ok(Detector::Pad(channel))
        } else if str_eq(det_str, "si_upstream_front") {
            Ok(Detector::SiUpstreamFront(channel))
        } else if str_eq(det_str, "si_upstream_back") {
            Ok(Detector::SiUpstreamBack(channel))
        } else if str_eq(det_str, "si_downstream_front") {
            Ok(Detector::SiDownstreamFront(channel))
        } else if str_eq(det_str, "si_downstream_back") {
            Ok(Detector::SiDownstreamBack(channel))
        } else {
            Err(DetectorError::InvalidKeyword(det_str.to_owned()))
        }
    }
}

/// Full hardware address of a channel with the detector element it reads.
#[derive(Debug, Clone, Copy, PartialEq, Eq, Structural, Hash)]
pub struct HardwareID {
    pub cobo_id: usize,
    pub asad_id: usize,
    pub aget_id: usize,
    pub channel: usize,
    pub detector: Detector,
}

impl HardwareID {
    pub fn new(cobo_id: &u8, asad_id: &u8, aget_id: &u8, channel: &u8, detector: &Detector) -> (r: Self)
        ensures
            r.cobo_id == *cobo_id as usize,
            r.asad_id == *asad_id as usize,
            r.aget_id == *aget_id as usize,
            r.channel == *channel as usize,
            r.detector == *detector,
    {
        HardwareID {
            cobo_id: *cobo_id as usize,
            asad_id: *asad_id as usize,
            aget_id: *aget_id as usize,
            channel: *channel as usize,
            detector: *detector,
        }
    }
}

/// The 64-bit key of a hardware address.
pub open spec fn uuid_of(cobo_id: int, asad_id: int, aget_id: int, channel_id: int) -> int {
    channel_id + aget_id * 100 + asad_id * 10_000 + cobo_id * 1_000_000
}

/// The key of a hardware address: `channel + aget*100 + asad*10_000 + cobo*1_000_000`.
pub fn generate_uuid(cobo_id: &u8, asad_id: &u8, aget_id: &u8, channel_id: &u8) -> (r: u64)
    ensures
        r == uuid_of(*cobo_id as int, *asad_id as int, *aget_id as int, *channel_id as int),
{
    (*channel_id as u64) + (*aget_id as u64) * 100 + (*asad_id as u64) * 10_000 + (*cobo_id as u64)
        * 1_000_000
}

} // verus!
