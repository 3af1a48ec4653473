use attpc_merger::channel_map::GetChannelMap;
use attpc_merger::error::{DetectorError, GetChannelMapError};
use attpc_merger::hardware_id::{generate_uuid, Detector, HardwareID};

#[test]
fn map_lookup_pad_row() {
    let map = GetChannelMap::from_csv("cobo,asad,aget,channel,pad\n7,2,1,10,9908\n").unwrap();
    let expected = HardwareID::new(&7, &2, &1, &10, &Detector::Pad(9908));
    assert_eq!(map.get_hardware_id(&7, &2, &1, &10), Some(&expected));
    assert_eq!(map.get_hardware_id(&7, &2, &1, &11), None);
}

#[test]
fn map_keyword_rows() {
    let text = "h\r\n0,0,0,1,pad,5,x\r\n10,1,2,3,si_upstream_front,4,x\r\n10,1,2,4,si_downstream_back,+6,y\n";
    let map = GetChannelMap::from_csv(text).unwrap();
    assert_eq!(map.get_hardware_id(&0, &0, &0, &1).unwrap().detector, Detector::Pad(5));
    assert_eq!(map.get_hardware_id(&10, &1, &2, &3).unwrap().detector, Detector::SiUpstreamFront(4));
    assert_eq!(map.get_hardware_id(&10, &1, &2, &4).unwrap().detector, Detector::SiDownstreamBack(6));
}

#[test]
fn map_later_row_wins() {
    let map = GetChannelMap::from_csv("h\n1,1,1,1,2\n1,1,1,1,3\n").unwrap();
    assert_eq!(map.get_hardware_id(&1, &1, &1, &1).unwrap().detector, Detector::Pad(3));
}

#[test]
fn map_errors() {
    assert_eq!(GetChannelMap::from_csv("h\n1,1,1,1\n").unwrap_err(), GetChannelMapError::BadFileFormat);
    assert_eq!(GetChannelMap::from_csv("h\n1,1,1,1,a,b,c,d\n").unwrap_err(), GetChannelMapError::BadFileFormat);
    assert_eq!(
        GetChannelMap::from_csv("h\n1,x1,1,1,2\n").unwrap_err(),
        GetChannelMapError::ParsingError(String::from("x1"))
    );
    assert_eq!(
        GetChannelMap::from_csv("h\n256,1,1,1,2\n").unwrap_err(),
        GetChannelMapError::ParsingError(String::from("256"))
    );
    assert_eq!(
        GetChannelMap::from_csv("h\n1,1,1,1,silicon,2,x\n").unwrap_err(),
        GetChannelMapError::BadDetKeyword(DetectorError::InvalidKeyword(String::from("silicon")))
    );
    assert_eq!(GetChannelMap::from_csv("h\n\n").unwrap_err(), GetChannelMapError::BadFileFormat);
    assert_eq!(GetChannelMap::from_csv("h\n1,1,1,1,pad,2\n").unwrap_err(), GetChannelMapError::BadFileFormat);
}

#[test]
fn map_header_only() {
    let map = GetChannelMap::from_csv("cobo,asad,aget,channel,pad").unwrap();
    assert_eq!(map.get_hardware_id(&0, &0, &0, &0), None);
    assert!(GetChannelMap::from_csv("").is_ok());
}

#[test]
fn detector_keywords() {
    assert_eq!(Detector::from_str_channel("pad", 3), Ok(Detector::Pad(3)));
    assert_eq!(Detector::from_str_channel("si_upstream_back", 1), Ok(Detector::SiUpstreamBack(1)));
    assert_eq!(Detector::from_str_channel("si_downstream_front", 2), Ok(Detector::SiDownstreamFront(2)));
    assert_eq!(
        Detector::from_str_channel("Pad", 3),
        Err(DetectorError::InvalidKeyword(String::from("Pad")))
    );
}

#[test]
fn uuid_formula() {
    assert_eq!(generate_uuid(&7, &2, &1, &10), 7_020_110);
    assert_eq!(generate_uuid(&255, &255, &255, &255), 255 + 25_500 + 2_550_000 + 255_000_000);
}
