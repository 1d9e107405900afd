use finger::account::{get_passwd_entries, push_parsed, AccountIndex, AccountRecord};
use finger::gecos::{parse_gecos, string_or_empty, Gecos};
use finger::person::pw_ent_to_person;
use finger::text::{trim_leading, Fields};

fn root() -> AccountRecord {
    AccountRecord {
        uid: 0,
        username: "root".to_string(),
        home_dir: "/root".to_string(),
        shell: "/bin/bash".to_string(),
        gecos: "root".to_string(),
    }
}

fn gecos(realname: &str, office: &str, office_phone: &str, home_phone: &str) -> Gecos {
    Gecos {
        realname: realname.to_string(),
        office: office.to_string(),
        office_phone: office_phone.to_string(),
        home_phone: home_phone.to_string(),
    }
}

#[test]
fn passwd_line_is_parsed_into_a_record() {
    let entries = get_passwd_entries("root:x:0:0:root:/root:/bin/bash");
    assert_eq!(entries, vec![root()]);
}

#[test]
fn passwd_text_is_read_line_by_line() {
    let text = "root:x:0:0:root:/root:/bin/bash\nalice:x:1000:1000:Alice A,,,555-1212:/home/alice:/bin/zsh\n";
    let entries = get_passwd_entries(text);
    assert_eq!(entries.len(), 2);
    assert_eq!(entries[0], root());
    assert_eq!(entries[1].username, "alice");
    assert_eq!(entries[1].uid, 1000);
    assert_eq!(entries[1].gecos, "Alice A,,,555-1212");
    assert_eq!(entries[1].home_dir, "/home/alice");
    assert_eq!(entries[1].shell, "/bin/zsh");
}

#[test]
fn lines_that_do_not_parse_are_skipped() {
    let text = "# comment\nroot:x:0:0:root:/root:/bin/bash\n\nbroken:x:notanumber:0:::\nshort:x:1\n";
    let entries = get_passwd_entries(text);
    assert_eq!(entries, vec![root()]);
}

#[test]
fn carriage_return_before_a_line_feed_is_not_part_of_the_line() {
    let entries = get_passwd_entries("root:x:0:0:root:/root:/bin/bash\r\nbin:x:1:1:bin:/bin:/sbin/nologin\r\n");
    assert_eq!(entries.len(), 2);
    assert_eq!(entries[0].shell, "/bin/bash");
    assert_eq!(entries[1].shell, "/sbin/nologin");
}

#[test]
fn carriage_return_at_the_end_of_the_text_stays() {
    let entries = get_passwd_entries("root:x:0:0:root:/root:/bin/bash\r");
    assert_eq!(entries.len(), 1);
    assert_eq!(entries[0].shell, "/bin/bash\r");
}

#[test]
fn empty_text_has_no_entries() {
    assert!(get_passwd_entries("").is_empty());
    assert!(get_passwd_entries("\n\n").is_empty());
}

#[test]
fn shell_may_hold_colons() {
    let entries = get_passwd_entries("u:x:5:6:g:/h:/bin/sh:-l");
    assert_eq!(entries.len(), 1);
    assert_eq!(entries[0].shell, "/bin/sh:-l");
    assert_eq!(entries[0].uid, 5);
}

#[test]
fn push_parsed_keeps_records_and_passes_over_gaps() {
    let mut entries = Vec::new();
    push_parsed(&mut entries, None);
    assert!(entries.is_empty());
    push_parsed(&mut entries, Some(root()));
    push_parsed(&mut entries, None);
    assert_eq!(entries, vec![root()]);
}

#[test]
fn index_finds_records_by_username() {
    let mut bin = root();
    bin.username = "bin".to_string();
    bin.uid = 1;
    let index = AccountIndex::build(vec![root(), bin.clone()]);
    assert_eq!(index.find("root"), Some(&root()));
    assert_eq!(index.find("bin"), Some(&bin));
    assert_eq!(index.find("daemon"), None);
    assert_eq!(index.find(""), None);
}

#[test]
fn first_occurrence_of_a_username_wins() {
    let mut later = root();
    later.uid = 99;
    later.shell = "/bin/false".to_string();
    let index = AccountIndex::build(vec![root(), later]);
    assert_eq!(index.find("root").unwrap().uid, 0);
    assert_eq!(index.find("root").unwrap().shell, "/bin/bash");
}

#[test]
fn empty_index_finds_nothing() {
    let index = AccountIndex::build(Vec::new());
    assert_eq!(index.find("root"), None);
}

#[test]
fn gecos_gives_four_components() {
    assert_eq!(
        parse_gecos("Alice A,Room 7,555-0100,555-1212"),
        gecos("Alice A", "Room 7", "555-0100", "555-1212")
    );
}

#[test]
fn missing_gecos_components_are_empty() {
    assert_eq!(parse_gecos("Alice A,,,555-1212"), gecos("Alice A", "", "", "555-1212"));
    assert_eq!(parse_gecos("Alice A"), gecos("Alice A", "", "", ""));
    assert_eq!(parse_gecos("Alice A,Room 7"), gecos("Alice A", "Room 7", "", ""));
    assert_eq!(parse_gecos(""), gecos("", "", "", ""));
    assert_eq!(parse_gecos(",,,"), gecos("", "", "", ""));
}

#[test]
fn leading_asterisks_of_gecos_are_stripped() {
    assert_eq!(parse_gecos("*Alice A,Room 7"), gecos("Alice A", "Room 7", "", ""));
    assert_eq!(parse_gecos("***,x"), gecos("", "x", "", ""));
    assert_eq!(parse_gecos("**"), gecos("", "", "", ""));
    assert_eq!(parse_gecos("Al*ice,*Room"), gecos("Al*ice", "*Room", "", ""));
}

#[test]
fn gecos_components_beyond_the_fourth_are_left_aside() {
    assert_eq!(parse_gecos("a,b,c,d,e,f"), gecos("a", "b", "c", "d"));
}

#[test]
fn gecos_may_hold_characters_of_several_bytes() {
    assert_eq!(parse_gecos("*Zoë Müller,Büro 3,,☎ 12"), gecos("Zoë Müller", "Büro 3", "", "☎ 12"));
}

#[test]
fn string_or_empty_copies_or_defaults() {
    assert_eq!(string_or_empty(Some("x y")), "x y");
    assert_eq!(string_or_empty(Some("")), "");
    assert_eq!(string_or_empty(None), "");
}

#[test]
fn profile_starts_from_the_account() {
    let account = AccountRecord {
        uid: 1000,
        username: "alice".to_string(),
        home_dir: "/home/alice".to_string(),
        shell: "/bin/zsh".to_string(),
        gecos: "*Alice A,Room 7,555-0100,555-1212".to_string(),
    };
    let p = pw_ent_to_person(&account);
    assert_eq!(p.uid, 1000);
    assert_eq!(p.username, "alice");
    assert_eq!(p.home_dir, "/home/alice");
    assert_eq!(p.shell, "/bin/zsh");
    assert_eq!(p.realname, "Alice A");
    assert_eq!(p.office, "Room 7");
    assert_eq!(p.office_phone, "555-0100");
    assert_eq!(p.home_phone, "555-1212");
    assert_eq!(p.mail_read, None);
    assert_eq!(p.mail_recv, None);
    assert!(p.sessions.is_empty());
}

#[test]
fn trim_leading_takes_the_whole_run() {
    assert_eq!(trim_leading("**a*b", '*'), "a*b");
    assert_eq!(trim_leading("a*", '*'), "a*");
    assert_eq!(trim_leading("***", '*'), "");
    assert_eq!(trim_leading("", '*'), "");
}

#[test]
fn fields_hands_out_pieces_front_to_back() {
    let mut fields = Fields::new("a,,b,", ',');
    assert_eq!(fields.next_field(), Some("a"));
    assert_eq!(fields.next_field(), Some(""));
    assert_eq!(fields.next_field(), Some("b"));
    assert_eq!(fields.next_field(), Some(""));
    assert_eq!(fields.next_field(), None);
    assert_eq!(fields.next_field(), None);
}

#[test]
fn fields_of_an_empty_text_is_one_empty_piece() {
    let mut fields = Fields::new("", ',');
    assert_eq!(fields.next_field(), Some(""));
    assert_eq!(fields.next_field(), None);
}
