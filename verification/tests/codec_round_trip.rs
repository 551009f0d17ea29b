use sekiva::addr::{Address, AddressKind};
use sekiva::codec::{
    decode_ballot_init, decode_org_init, encode_ballot_init, encode_ballot_request,
    encode_org_init, read_address, read_blob, read_str, read_str_list, read_u32, read_u64,
    BallotInitData, OrgInitData,
};
use sekiva::tally::{decode_tally_result, encode_tally_result, make_tally, TallyResult};

fn someone(n: u8) -> Address {
    Address { kind: AddressKind::Account, id_a: n as u64, id_b: 1, id_c: 2 }
}

#[test]
fn u32_read_is_little_endian() {
    let v = vec![0x78u8, 0x56, 0x34, 0x12];
    let (x, np) = read_u32(&v, 0).unwrap();
    assert_eq!(x, 0x12345678);
    assert_eq!(np, 4);
    assert!(read_u32(&v, 1).is_none());
}

#[test]
fn u64_read_is_little_endian() {
    let v = vec![1u8, 0, 0, 0, 0, 0, 0, 0x80];
    let (x, np) = read_u64(&v, 0).unwrap();
    assert_eq!(x, 0x8000000000000001);
    assert_eq!(np, 8);
    assert!(read_u64(&v, 1).is_none());
}

#[test]
fn blob_read_takes_its_length_prefix() {
    let v = vec![3u8, 0, 0, 0, 10, 20, 30, 99];
    let (b, np) = read_blob(&v, 0).unwrap();
    assert_eq!(b, vec![10, 20, 30]);
    assert_eq!(np, 7);
    let truncated = vec![5u8, 0, 0, 0, 1];
    assert!(read_blob(&truncated, 0).is_none());
}

#[test]
fn string_read_decodes_utf8() {
    let v = vec![2u8, 0, 0, 0, 65, 66];
    let (s, np) = read_str(&v, 0).unwrap();
    assert_eq!(s, String::from("AB"));
    assert_eq!(np, 6);
    let bad = vec![1u8, 0, 0, 0, 0xff];
    assert!(read_str(&bad, 0).is_none());
}

#[test]
fn string_list_read_takes_count_then_elements() {
    let v = vec![2u8, 0, 0, 0, 1, 0, 0, 0, 97, 2, 0, 0, 0, 98, 99];
    let (xs, np) = read_str_list(&v, 0).unwrap();
    assert_eq!(xs, vec![String::from("a"), String::from("bc")]);
    assert_eq!(np, v.len());
}

#[test]
fn address_read_round_trips_through_its_encoding() {
    let a = Address { kind: AddressKind::ZkContract, id_a: 0x0102030405060708, id_b: 9, id_c: 77 };
    let mut v: Vec<u8> = vec![3];
    v.extend_from_slice(&0x0102030405060708u64.to_le_bytes());
    v.extend_from_slice(&9u64.to_le_bytes());
    v.extend_from_slice(&77u32.to_le_bytes());
    let (got, np) = read_address(&v, 0).unwrap();
    assert_eq!(got, a);
    assert_eq!(np, 21);
    let mut bad = v.clone();
    bad[0] = 9;
    assert!(read_address(&bad, 0).is_none());
}

#[test]
fn ballot_init_round_trips() {
    // Encoding constructor arguments and decoding them on the spawned
    // contract's side yields the values that went in.
    let d = BallotInitData {
        options: vec![String::from("Yes"), String::from("No"), String::from("Abstain")],
        title: String::from("Raise dues"),
        description: String::from("Shall the dues be raised?"),
        organization: someone(10),
        administrator: someone(11),
        eligible_voters: vec![someone(1), someone(2), someone(3)],
        duration_seconds: 86400,
    };
    let bytes = encode_ballot_init(&d);
    assert_eq!(&bytes[0..5], &[0xff, 0xff, 0xff, 0xff, 0x0f]);
    let back = decode_ballot_init(&bytes).unwrap();
    assert_eq!(
        back.options,
        vec![String::from("Yes"), String::from("No"), String::from("Abstain")]
    );
    assert_eq!(back.title, String::from("Raise dues"));
    assert_eq!(back.description, String::from("Shall the dues be raised?"));
    assert_eq!(back.organization, someone(10));
    assert_eq!(back.administrator, someone(11));
    assert_eq!(back.eligible_voters, vec![someone(1), someone(2), someone(3)]);
    assert_eq!(back.duration_seconds, 86400);
}

#[test]
fn ballot_init_decode_rejects_damage() {
    let d = BallotInitData {
        options: vec![String::from("Yes"), String::from("No")],
        title: String::from("t"),
        description: String::from("d"),
        organization: someone(10),
        administrator: someone(11),
        eligible_voters: vec![],
        duration_seconds: 1,
    };
    let bytes = encode_ballot_init(&d);
    let mut wrong_header = bytes.clone();
    wrong_header[4] = 0x00;
    assert!(decode_ballot_init(&wrong_header).is_none());
    let mut truncated = bytes.clone();
    truncated.pop();
    assert!(decode_ballot_init(&truncated).is_none());
    let mut padded = bytes.clone();
    padded.push(0);
    assert!(decode_ballot_init(&padded).is_none());
}

#[test]
fn org_init_round_trips() {
    let d = OrgInitData {
        name: String::from("Garden club"),
        description: String::from("We grow things"),
        profile_image: String::from("p.png"),
        banner_image: String::from("b.png"),
        website: String::from("https://example.org"),
        x_account: String::from("@garden"),
        discord_server: String::from("discord.example"),
        administrator: someone(20),
        ballot_contract_zkwa: vec![1, 2, 3, 4],
        ballot_contract_abi: vec![5, 6],
        factory_address: someone(21),
    };
    let bytes = encode_org_init(&d);
    let back = decode_org_init(&bytes).unwrap();
    assert_eq!(back.name, String::from("Garden club"));
    assert_eq!(back.description, String::from("We grow things"));
    assert_eq!(back.profile_image, String::from("p.png"));
    assert_eq!(back.banner_image, String::from("b.png"));
    assert_eq!(back.website, String::from("https://example.org"));
    assert_eq!(back.x_account, String::from("@garden"));
    assert_eq!(back.discord_server, String::from("discord.example"));
    assert_eq!(back.administrator, someone(20));
    assert_eq!(back.ballot_contract_zkwa, vec![1, 2, 3, 4]);
    assert_eq!(back.ballot_contract_abi, vec![5, 6]);
    assert_eq!(back.factory_address, someone(21));
}

#[test]
fn tally_result_round_trips_through_twenty_bytes() {
    let t = TallyResult { option_0: 2, option_1: 1, option_2: 0, option_3: 0, option_4: 0 };
    let bytes = encode_tally_result(&t);
    assert_eq!(bytes.len(), 20);
    assert_eq!(bytes[0], 2);
    let back = decode_tally_result(&bytes).unwrap();
    assert_eq!(back, t);
    assert!(decode_tally_result(&vec![0u8; 19]).is_none());
    let tally = make_tally(&t).unwrap();
    assert_eq!(tally.total, 3);
    let huge = TallyResult {
        option_0: u32::MAX,
        option_1: u32::MAX,
        option_2: 0,
        option_3: 0,
        option_4: 0,
    };
    assert!(make_tally(&huge).is_none());
}

#[test]
fn ballot_request_encoding_starts_with_the_header() {
    let bytes = encode_ballot_request(
        &vec![String::from("Yes"), String::from("No")],
        &String::from("t"),
        &String::from("d"),
    );
    assert_eq!(&bytes[0..5], &[0xff, 0xff, 0xff, 0xff, 0x0f]);
    assert_eq!(&bytes[5..9], &[2, 0, 0, 0]);
}
