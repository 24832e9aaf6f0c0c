use md_dir_builder::builder::{Builder, BuiltFile, FileReply};
use md_dir_builder::msg::MsgSrv;
use md_dir_builder::path::{
    determine_real_path, join_parts, path_components, path_from_parts, split_at_slashes,
    stays_below_root, webpath,
};
use md_dir_builder::router::{page_for, PageStatus, Subscribers};
use md_dir_builder::ui::Contents;

fn strings(items: &[&str]) -> Vec<String> {
    items.iter().map(|s| s.to_string()).collect()
}

fn changed() -> MsgSrv {
    MsgSrv::File("/a.md".to_string(), BuiltFile { contents: "<p>a</p>\n".to_string(), word_count: 1 })
}

fn received(deliveries: Vec<(&char, MsgSrv)>) -> Vec<(char, MsgSrv)> {
    deliveries.into_iter().map(|(channel, event)| (*channel, event)).collect()
}

#[test]
fn broadcast_reaches_every_subscriber_and_skips_the_detached() {
    let mut subscribers: Subscribers<char> = Subscribers::new();
    let first = subscribers.attach(10, 'x').expect("an identity");
    let second = subscribers.attach(20, 'y').expect("an identity");
    assert_ne!(first, second);

    let event = changed();
    assert_eq!(
        vec![('x', event.clone()), ('y', event.clone())],
        received(subscribers.broadcast(&event))
    );

    assert_eq!(Some('x'), subscribers.detach(first));
    let listing = MsgSrv::NewFile("/b.md".to_string(), strings(&["/a.md", "/b.md"]));
    assert_eq!(vec![('y', listing.clone())], received(subscribers.broadcast(&listing)));
    assert_eq!(1, subscribers.len());
}

#[test]
fn detach_is_idempotent() {
    let mut subscribers: Subscribers<char> = Subscribers::new();
    let id = subscribers.attach(5, 'x').expect("an identity");
    assert_eq!(None, subscribers.detach(id + 1));
    assert_eq!(Some('x'), subscribers.detach(id));
    assert_eq!(None, subscribers.detach(id));
    assert_eq!(None, subscribers.detach(id));
    assert_eq!(0, subscribers.len());
    assert!(subscribers.broadcast(&changed()).is_empty());
}

#[test]
fn attach_gives_distinct_identities_for_equal_stamps() {
    let mut subscribers: Subscribers<char> = Subscribers::new();
    assert_eq!(Ok(7), subscribers.attach(7, 'a'));
    assert_eq!(Ok(8), subscribers.attach(7, 'b'));
    assert_eq!(Ok(9), subscribers.attach(3, 'c'));
    assert_eq!(Ok(100), subscribers.attach(100, 'd'));
    assert_eq!(Some('b'), subscribers.detach(8));
    assert_eq!(Ok(101), subscribers.attach(8, 'e'));
    assert_eq!(Some(&'a'), subscribers.channel(7));
    assert_eq!(Some(&'e'), subscribers.channel(101));
    assert_eq!(None, subscribers.channel(8));
}

#[test]
fn attach_fails_when_no_identity_is_left() {
    let mut subscribers: Subscribers<char> = Subscribers::new();
    assert_eq!(Ok(i64::MAX - 1), subscribers.attach(i64::MAX - 1, 'a'));
    assert_eq!(Err('b'), subscribers.attach(0, 'b'));
    assert_eq!(Err('c'), subscribers.attach(i64::MAX, 'c'));
    assert_eq!(1, subscribers.len());
    let mut fresh: Subscribers<char> = Subscribers::new();
    assert_eq!(Ok(i64::MIN), fresh.attach(i64::MIN, 'a'));
}

#[test]
fn shutdown_sends_the_terminal_event_to_everyone() {
    let mut subscribers: Subscribers<char> = Subscribers::new();
    subscribers.attach(1, 'x').expect("an identity");
    subscribers.attach(2, 'y').expect("an identity");
    assert_eq!(vec![('x', MsgSrv::Exit()), ('y', MsgSrv::Exit())], subscribers.shutdown());
    assert!(MsgSrv::Exit().is_exit());
    assert!(!changed().is_exit());
}

#[test]
fn split_at_slashes_keeps_empty_parts() {
    assert_eq!(vec![""], split_at_slashes(""));
    assert_eq!(vec!["", ""], split_at_slashes("/"));
    assert_eq!(vec!["", "a", "b.md"], split_at_slashes("/a/b.md"));
    assert_eq!(vec!["a", "", "b", ""], split_at_slashes("a//b/"));
    assert_eq!(vec!["ä", "ö"], split_at_slashes("ä/ö"));
}

#[test]
fn join_parts_leaves_out_empty_parts_at_the_front() {
    assert_eq!("", join_parts(&strings(&[])));
    assert_eq!("", join_parts(&strings(&["", ""])));
    assert_eq!("a/b.md", join_parts(&strings(&["", "a", "b.md"])));
    assert_eq!("a", join_parts(&strings(&["", "", "a"])));
    assert_eq!("a//b/", join_parts(&strings(&["a", "", "b", ""])));
}

#[test]
fn determine_real_path_decodes_each_part() {
    assert_eq!(Some("/README.md".to_string()), determine_real_path("/README.md"));
    assert_eq!(Some("/a b/c.md".to_string()), determine_real_path("/a%20b/c.md"));
    assert_eq!(Some("/ä.md".to_string()), determine_real_path("/%C3%A4.md"));
    assert_eq!(Some("/a+b.md".to_string()), determine_real_path("/a+b.md"));
    assert_eq!(Some("/100%.md".to_string()), determine_real_path("/100%.md"));
    assert_eq!(Some("/".to_string()), determine_real_path("/"));
    assert_eq!(Some("/".to_string()), determine_real_path(""));
    assert_eq!(Some("/a.md".to_string()), determine_real_path("//a.md"));
    assert_eq!(Some("/a/b.md".to_string()), determine_real_path("/a%2Fb.md"));
}

#[test]
fn determine_real_path_rejects_malformed_requests() {
    assert_eq!(None, determine_real_path("/%FF.md"));
    assert_eq!(None, determine_real_path("/a/%C3.md"));
    assert_eq!(None, determine_real_path("/../secret.md"));
    assert_eq!(None, determine_real_path("/a/../../secret.md"));
    assert_eq!(None, determine_real_path("/%2E%2E/secret.md"));
    assert_eq!(None, determine_real_path("/..%2F..%2Fsecret.md"));
    assert_eq!(Some("/a/../b.md".to_string()), determine_real_path("/a/../b.md"));
    assert_eq!(Some("/./a.md".to_string()), determine_real_path("/./a.md"));
    assert_eq!(Some("/...".to_string()), determine_real_path("/..."));
}

#[test]
fn stays_below_root_walks_the_parts() {
    assert!(stays_below_root(""));
    assert!(stays_below_root("a/b/../../c"));
    assert!(stays_below_root("a/./.."));
    assert!(!stays_below_root(".."));
    assert!(!stays_below_root("a/../.."));
    assert!(!stays_below_root("./../a"));
    assert_eq!(Some("/a/b".to_string()), path_from_parts(&strings(&["a", "b"])));
    assert_eq!(None, path_from_parts(&strings(&["..", "b"])));
    assert_eq!(None, path_from_parts(&strings(&["a", "../.."])));
}

#[test]
fn malformed_request_is_a_miss_even_while_a_build_is_in_flight() {
    let mut builder = Builder::new();
    builder.initial_build(&vec![("a b.md".to_string(), Some("# a".to_string()))]);
    let listing = strings(&["/a b.md"]);
    assert_eq!(FileReply::Ready(None, listing.clone()), builder.lookup_request("/%FF"));
    assert_eq!(FileReply::Ready(None, listing.clone()), builder.lookup_request("/../a b.md"));
    assert_eq!(FileReply::Ready(None, listing.clone()), builder.lookup_request("/a%20b"));
    match builder.lookup_request("/a%20b.md") {
        FileReply::Ready(Some(file), files) => {
            assert_eq!("<h1>a</h1>\n", file.contents);
            assert_eq!(listing, files);
        }
        other => panic!("unexpected reply {:?}", other),
    }
    let _token = builder.begin_build("a b.md").expect("no build in flight");
    assert_eq!(FileReply::Pending, builder.lookup_request("/a%20b.md"));
    assert_eq!(FileReply::Ready(None, listing), builder.lookup_request("/%FF"));
}

#[test]
fn path_components_leave_out_the_first_slash() {
    assert_eq!(vec!["a", "b.md"], path_components("/a/b.md"));
    assert_eq!(vec!["a", "b.md"], path_components("a/b.md"));
    assert_eq!(vec!["", "a.md"], path_components("//a.md"));
    assert_eq!(vec![""], path_components("/"));
    assert_eq!(vec![""], path_components(""));
}

#[test]
fn webpath_puts_a_slash_in_front() {
    assert_eq!("/README.md", webpath("README.md"));
    assert_eq!("/a/b.md", webpath("a/b.md"));
    assert_eq!("/", webpath(""));
}

#[test]
fn page_for_maps_a_miss_to_not_found() {
    let file = BuiltFile { contents: "<p>a</p>\n".to_string(), word_count: 1 };
    let hit = FileReply::Ready(Some(file.clone()), vec![]);
    match page_for(&hit) {
        Some((PageStatus::Found, Contents::Html(shown))) => assert_eq!(&file, shown),
        _ => panic!("expected the artifact"),
    }
    let miss = FileReply::Ready(None, vec![]);
    assert!(matches!(page_for(&miss), Some((PageStatus::NotFound, Contents::NotFound()))));
    assert!(page_for(&FileReply::Pending).is_none());
    assert_eq!(200, PageStatus::Found.code());
    assert_eq!(404, PageStatus::NotFound.code());
    assert_eq!(410, PageStatus::Gone.code());
}
