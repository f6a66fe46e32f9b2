use file_sharing::get_file_alias;
use file_sharing::greeting;
use file_sharing::FileData;
use file_sharing::Service;
use file_sharing::WhoamiResponse;

fn expect_empty(d: FileData) {
    match d {
        FileData::EmptyFile => {}
        FileData::NonEmptyFile(_) => panic!("expected the empty answer"),
    }
}

fn expect_bytes(d: FileData, expected: &[u8]) {
    match d {
        FileData::EmptyFile => panic!("expected stored content"),
        FileData::NonEmptyFile(c) => assert_eq!(c, expected),
    }
}

fn create(s: &mut Service, name: &str, seed: &[u8]) -> String {
    s.create_file_request(name.to_string(), seed)
        .expect("seed was fresh, so the request must be accepted")
}

#[test]
fn report_pdf_lifecycle() {
    let mut s = Service::new();
    let a1 = create(&mut s, "report.pdf", &[0x11, 0x22]);
    let info = s.get_request_info(&a1);
    assert_eq!(info.file_id, 1);
    assert_eq!(info.file_name, "report.pdf");
    expect_empty(s.download_file(1));
    s.upload_file(1, vec![0x25, 0x50, 0x44, 0x46]);
    expect_bytes(s.download_file(1), &[0x25, 0x50, 0x44, 0x46]);
}

#[test]
fn consecutive_requests_get_ids_one_and_two_and_distinct_aliases() {
    let mut s = Service::new();
    let a1 = create(&mut s, "a", &[1]);
    let a2 = create(&mut s, "b", &[2]);
    assert_eq!(s.get_request_info(&a1).file_id, 1);
    assert_eq!(s.get_request_info(&a2).file_id, 2);
    assert_ne!(a1, a2);
}

#[test]
fn request_with_an_already_drawn_seed_is_refused() {
    let mut s = Service::new();
    let a1 = create(&mut s, "a", &[7, 7]);
    assert!(s.create_file_request("b".to_string(), &[7, 7]).is_none());
    // The refused request reserved nothing: the next fresh one gets id 2,
    // and the issued alias still resolves to its original metadata.
    let a2 = create(&mut s, "b", &[7, 8]);
    assert_eq!(s.get_request_info(&a2).file_id, 2);
    assert_eq!(s.get_request_info(&a1).file_name, "a");
    expect_empty(s.download_file(3));
}

#[test]
fn download_of_unissued_identifier_is_empty() {
    let mut s = Service::new();
    expect_empty(s.download_file(0));
    expect_empty(s.download_file(1));
    expect_empty(s.download_file(42));
    let _ = create(&mut s, "a", &[1]);
    expect_empty(s.download_file(2));
    expect_empty(s.download_file(u64::MAX));
}

#[test]
fn download_before_upload_is_empty() {
    let mut s = Service::new();
    let _ = create(&mut s, "a", &[1]);
    expect_empty(s.download_file(1));
}

#[test]
fn upload_against_unknown_identifier_is_a_silent_no_op() {
    let mut s = Service::new();
    s.upload_file(7, vec![1, 2, 3]);
    expect_empty(s.download_file(7));
    let a = create(&mut s, "a", &[1]);
    assert_eq!(s.get_request_info(&a).file_id, 1);
    expect_empty(s.download_file(1));
}

#[test]
fn second_upload_overwrites_content() {
    let mut s = Service::new();
    let _ = create(&mut s, "a", &[1]);
    s.upload_file(1, vec![1, 2, 3]);
    s.upload_file(1, vec![9]);
    expect_bytes(s.download_file(1), &[9]);
}

#[test]
fn uploaded_empty_content_is_present_not_absent() {
    let mut s = Service::new();
    let _ = create(&mut s, "a", &[1]);
    s.upload_file(1, vec![]);
    expect_bytes(s.download_file(1), &[]);
}

#[test]
fn unissued_alias_resolves_to_the_sentinel_record() {
    let mut s = Service::new();
    let info = s.get_request_info("no-such-alias");
    assert_eq!(info.file_id, 0);
    assert_eq!(info.file_name, "non-existing file");
    let _ = create(&mut s, "a", &[1]);
    let info = s.get_request_info("still-no-such-alias");
    assert_eq!(info.file_id, 0);
    assert_eq!(info.file_name, "non-existing file");
}

#[test]
fn alias_keeps_resolving_to_creation_time_metadata() {
    let mut s = Service::new();
    let a1 = create(&mut s, "first.txt", &[1]);
    let _ = create(&mut s, "second.txt", &[2]);
    s.upload_file(1, vec![1]);
    let info = s.get_request_info(&a1);
    assert_eq!(info.file_id, 1);
    assert_eq!(info.file_name, "first.txt");
}

#[test]
fn file_names_need_not_be_unique() {
    let mut s = Service::new();
    let a1 = create(&mut s, "same", &[1]);
    let a2 = create(&mut s, "same", &[2]);
    assert_ne!(a1, a2);
    assert_eq!(s.get_request_info(&a1).file_name, "same");
    assert_eq!(s.get_request_info(&a2).file_name, "same");
    assert_ne!(s.get_request_info(&a1).file_id, s.get_request_info(&a2).file_id);
}

#[test]
fn who_am_i_is_unknown_before_set_user() {
    let s = Service::new();
    match s.who_am_i("2vxsx-fae") {
        WhoamiResponse::UnknownUser => {}
        WhoamiResponse::KnownUser(_) => panic!("never registered"),
    }
}

#[test]
fn who_am_i_reads_back_the_most_recent_set_user() {
    let mut s = Service::new();
    s.set_user("caller-a".to_string(), "Ada".to_string(), "Lovelace".to_string());
    s.set_user("caller-a".to_string(), "Alan".to_string(), "Turing".to_string());
    match s.who_am_i("caller-a") {
        WhoamiResponse::KnownUser(u) => {
            assert_eq!(u.first_name, "Alan");
            assert_eq!(u.last_name, "Turing");
        }
        WhoamiResponse::UnknownUser => panic!("was registered"),
    }
}

#[test]
fn profiles_are_kept_per_identity() {
    let mut s = Service::new();
    s.set_user("caller-a".to_string(), "Ada".to_string(), "Lovelace".to_string());
    match s.who_am_i("caller-b") {
        WhoamiResponse::UnknownUser => {}
        WhoamiResponse::KnownUser(_) => panic!("other identity never registered"),
    }
    match s.who_am_i("caller-a") {
        WhoamiResponse::KnownUser(u) => assert_eq!(u.first_name, "Ada"),
        WhoamiResponse::UnknownUser => panic!("was registered"),
    }
}

#[test]
fn empty_names_are_permitted() {
    let mut s = Service::new();
    s.set_user("caller-a".to_string(), String::new(), String::new());
    match s.who_am_i("caller-a") {
        WhoamiResponse::KnownUser(u) => {
            assert_eq!(u.first_name, "");
            assert_eq!(u.last_name, "");
        }
        WhoamiResponse::UnknownUser => panic!("was registered"),
    }
    let a = create(&mut s, "", &[1]);
    assert_eq!(s.get_request_info(&a).file_name, "");
}

#[test]
fn aliases_are_derived_from_the_seed_bytes() {
    assert_eq!(get_file_alias(&[]), "file-");
    assert_eq!(get_file_alias(&[0x01]), "file-01");
    assert_eq!(get_file_alias(&[0xde, 0xad, 0xbe, 0xef]), "file-deadbeef");
    assert_eq!(get_file_alias(&[0x00, 0xff]), "file-00ff");
}

#[test]
fn returned_alias_matches_the_derived_one() {
    let mut s = Service::new();
    let a1 = create(&mut s, "a", &[0xab, 0xcd]);
    assert_eq!(a1, get_file_alias(&[0xab, 0xcd]));
    assert_eq!(a1, "file-abcd");
    assert_eq!(s.file_count(), 1);
}

#[test]
fn greeting_names_the_caller() {
    assert_eq!(greeting("2vxsx-fae"), "Hello 2vxsx-fae!");
    assert_eq!(greeting(""), "Hello !");
}
