//! Texts, addresses, errors, tables and cloud volumes.
use mill_node::error::{DeployError, NodeError, StorageError};
use mill_node::net::{IpAddr, SocketAddr};
use mill_node::storage::digitalocean::{
    DigitalOceanVolumes, DoVolume, Reply, VolumeAction, VolumeActionRequest,
};
use mill_node::storage::CloudVolumeInfo;
use mill_node::table::Table;
use mill_node::text::{
    billionths_text, decimal_text, hex_text, join, padded_text, parse_u64, signed_text,
    split_lines, trim_text,
};
use mill_node::units::readable_span;

const GIB: u64 = 1 << 30;

#[test]
fn numbers_are_written() {
    assert_eq!(decimal_text(0), "0");
    assert_eq!(decimal_text(u128::MAX), u128::MAX.to_string());
    assert_eq!(hex_text(0xbeef), "beef");
    assert_eq!(padded_text(7, 2), "07");
    assert_eq!(padded_text(123, 2), "123");
    assert_eq!(signed_text(-1), "-1");
    assert_eq!(signed_text(i32::MIN), "-2147483648");
    assert_eq!(billionths_text(1_500_000_000), "1.5");
    assert_eq!(billionths_text(2_000_000_000), "2");
    assert_eq!(billionths_text(1), "0.000000001");
}

#[test]
fn numbers_are_read() {
    assert_eq!(parse_u64("18446744073709551615"), Some(u64::MAX));
    assert_eq!(parse_u64("18446744073709551616"), None);
    assert_eq!(parse_u64("+5"), Some(5));
    assert_eq!(parse_u64("-5"), None);
    assert_eq!(parse_u64(""), None);
    assert_eq!(parse_u64("+"), None);
    assert_eq!(parse_u64(" 5"), None);
    assert_eq!(parse_u64(&decimal_text(77)), Some(77));
}

#[test]
fn texts_are_taken_apart() {
    assert_eq!(trim_text(" \t x y \u{3000}\n"), "x y");
    let lines: Vec<String> =
        split_lines("a\r\nb\n\nc").into_iter().map(|l| l.into_iter().collect()).collect();
    assert_eq!(lines, vec!["a", "b", "", "c"]);
    assert!(split_lines("").is_empty());
    assert_eq!(join(&vec!["a".to_string(), "b".to_string()], ", "), "a, b");
}

#[test]
fn addresses_are_written() {
    assert_eq!(IpAddr::V4(0x0102_0304).to_text(), "1.2.3.4");
    assert_eq!(IpAddr::V6(1).to_text(), "::1");
    assert_eq!(IpAddr::V6(0).to_text(), "::");
    assert_eq!(IpAddr::V6(0x2001_0db8_0000_0000_0000_0000_0000_0001).to_text(), "2001:db8::1");
    assert_eq!(
        IpAddr::V6(0x0001_0000_0002_0003_0004_0005_0006_0007).to_text(),
        "1:0:2:3:4:5:6:7"
    );
    let six = SocketAddr { ip: IpAddr::V6(1), port: 80 };
    assert_eq!(six.to_text(), "[::1]:80");
    let four = SocketAddr { ip: IpAddr::V4(0x7f00_0001), port: 80 };
    assert_eq!(four.to_text(), "127.0.0.1:80");
}

#[test]
fn errors_have_words() {
    let bind = NodeError::Bind { address: "a:1".into(), source: "in use".into() };
    assert_eq!(bind.to_text(), "failed to bind a:1");
    let failed = NodeError::DeployFailed { service: "web".into(), reason: "no".into() };
    assert_eq!(failed.to_text(), "deploy failed for web: no");
    assert_eq!(NodeError::PortExhaustion.to_text(), "no ports available");
    let full = DeployError::SchedulingFailed { service: "web".into(), replica: 3 };
    assert_eq!(full.to_text(), "scheduling failed for web, replica 3: no nodes available");
    assert_eq!(StorageError::Attached("v".into()).to_text(), "volume is attached: v");
}

#[test]
fn tables_hold_one_value_for_a_name() {
    let mut table = Table::new();
    table.insert("a".to_string(), 1);
    table.insert("b".to_string(), 2);
    table.insert("a".to_string(), 3);
    assert_eq!(table.len(), 2);
    assert_eq!(table.get(&"a".to_string()), Some(&3));
    assert_eq!(table.remove(&"a".to_string()), Some(3));
    assert_eq!(table.remove(&"a".to_string()), None);
    assert!(table.contains(&"b".to_string()));
}

#[test]
fn spans_are_readable_but_at_the_limit() {
    for text in [
        "1h 30m",
        "90s",
        "1000000000000000ns",
        "600000000000ms",
        "600000000000millis",
        "1000000000000s",
        "584000000000s",
        "18446744073709551615s",
        "18446744073709551614s 999ms",
        "500000000000 years",
        "7000000000000months 3M",
        "15 years 2 months",
        "1.5h 2.25min",
        "",
        "soon",
        "5",
        // These are refused for their size.
        "99999999999999999999s",
        "1 000 000 000 000 y",
        "18446744073709551615h",
        "18446744073709551615m",
        "18446744073709551615s 5s",
        "18446744073709551615s 1m",
        "18446744073709551615s 1minute",
        "18446744073709551615s 1001ms",
        // These are refused for their units.
        "18446744073709551615x",
        "18446744073709551615mx",
        "18446744073709551615mi",
    ] {
        assert!(readable_span(&text.to_string()), "{text}");
    }
    for text in [
        "18446744073709551615s 1000000000ns",
        "18446744073709551615s 1000ms",
        "18446744073709551 615s1000millis",
        "18446744073709551556s 1m",
        "18446744073709551556s 1min",
        "18446744073709551615.5s",
        "18446744073709551615s 1000000000ns 99999999999999999999s",
    ] {
        assert!(!readable_span(&text.to_string()), "{text}");
    }
}

fn driver() -> DigitalOceanVolumes {
    DigitalOceanVolumes::new("tok".into(), "nyc1".into())
}

fn listed() -> Vec<CloudVolumeInfo> {
    vec![CloudVolumeInfo { id: "v-1".into(), name: "data".into(), size_bytes: GIB }]
}

#[test]
fn volumes_are_asked_for_in_whole_gibibytes() {
    let request = driver().create_request("data".into(), 10 * GIB + 5);
    assert_eq!(request.size_gigabytes, 10);
    assert_eq!(request.region, "nyc1");
    assert_eq!(request.filesystem_type, "ext4");
    assert_eq!(driver().create_request("data".into(), 5).size_gigabytes, 1);
    assert_eq!(driver().auth_header(), "Bearer tok");
    assert_eq!(driver().list_url(), "https://api.digitalocean.com/v2/volumes?region=nyc1");
    assert_eq!(
        driver().destroy_url(&"data".to_string()),
        "https://api.digitalocean.com/v2/volumes?name=data&region=nyc1"
    );
}

#[test]
fn volumes_are_listed_in_bytes() {
    let volume = DoVolume { id: "v-1".into(), name: "data".into(), size_gigabytes: 3 };
    let volumes = driver().list_volumes(Reply::Done(vec![volume])).unwrap();
    assert_eq!(volumes[0].size_bytes, 3 * GIB);
    assert_eq!(
        driver().list_volumes(Reply::Refused { status: 403, text: "no".into() }),
        Err(StorageError::Api("no".into()))
    );
    assert_eq!(
        driver().list_volumes(Reply::Failed("timeout".into())),
        Err(StorageError::Http("timeout".into()))
    );
}

#[test]
fn volumes_are_attached_to_droplets() {
    let (url, body) =
        driver().attach_request(&listed(), "data".into(), &"42".to_string()).unwrap();
    assert_eq!(url, "https://api.digitalocean.com/v2/volumes/v-1/actions");
    assert_eq!(
        body,
        VolumeActionRequest {
            action: VolumeAction::Attach,
            droplet_id: Some(42),
            region: Some("nyc1".into()),
        }
    );
    assert_eq!(body.action.to_text(), "attach");
    assert_eq!(
        driver().attach_request(&listed(), "data".into(), &"i-42".to_string()),
        Err(StorageError::Api("invalid droplet id".into()))
    );
    assert_eq!(
        driver().attach_request(&listed(), "logs".into(), &"42".to_string()),
        Err(StorageError::NotFound("logs".into()))
    );
    let (_, body) = driver().detach_request(&listed(), "data".into()).unwrap();
    assert_eq!(body.droplet_id, None);
}

#[test]
fn volumes_that_are_gone_are_not_found() {
    let gone = Reply::Refused { status: 404, text: "x".into() };
    assert_eq!(driver().destroyed("data".into(), gone), Err(StorageError::NotFound("data".into())));
    let other = Reply::Refused { status: 409, text: "busy".into() };
    assert_eq!(driver().destroyed("data".into(), other), Err(StorageError::Api("busy".into())));
    assert_eq!(driver().destroyed("data".into(), Reply::Done(())), Ok(()));
    assert_eq!(driver().volume_action(Reply::Done(())), Ok(()));
    let made = DoVolume { id: "v-9".into(), name: "data".into(), size_gigabytes: 1 };
    assert_eq!(driver().created(Reply::Done(made)), Ok("v-9".into()));
}
