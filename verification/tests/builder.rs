use md_dir_builder::builder::{Builder, BuilderStep, FileReply, QueryReply, RootKind};
use md_dir_builder::discovery::{DirEntry, Scan};
use md_dir_builder::msg::{MsgBuilder, MsgInternalBuilder, MsgSrv};

fn fs_read_file(s: &str) -> Option<String> {
    match s {
        "README.md" => Some("# README".to_string()),
        "test.md" => Some("# test header".to_string()),
        _ => {
            assert!(false, "Should not be reached");
            None
        }
    }
}

fn sources(files: &[&str]) -> Vec<(String, Option<String>)> {
    files.iter().map(|f| (f.to_string(), fs_read_file(f))).collect()
}

fn contents_of(reply: FileReply) -> (Option<String>, Vec<String>) {
    match reply {
        FileReply::Ready(file, files) => (file.map(|f| f.contents), files),
        FileReply::Pending => panic!("Expected builded file"),
    }
}

fn request(builder: &Builder, path: &str) -> (Option<String>, Vec<String>) {
    match builder.server_queries(&MsgBuilder::File(path.to_string())) {
        QueryReply::File(reply) => contents_of(reply),
        _ => panic!("Expected builded file"),
    }
}

#[test]
fn test_initial_build() {
    let mut builder = md_dir_builder::builder::builder_with_fs_change(RootKind::Directory).expect("a directory");
    builder.initial_build(&sources(&["README.md", "test.md"]));

    let (file, files) = request(&builder, "/README.md");
    let (file_test, _) = request(&builder, "/test.md");

    assert_eq!(2, files.len(), "Expected 2 files");
    assert_eq!(Some(format!("<h1>README</h1>\n")), file);
    assert_eq!(Some(format!("<h1>test header</h1>\n")), file_test);
}

#[test]
fn test_add_file() {
    let mut builder = md_dir_builder::builder::builder_with_fs_change(RootKind::Directory).expect("a directory");
    builder.initial_build(&sources(&["README.md"]));

    let (file, _) = request(&builder, "/README.md");

    let announced = match builder.file_builder(&MsgInternalBuilder::FileCreated("test.md".to_string())) {
        BuilderStep::Read(token) => {
            let source = fs_read_file(token.file());
            builder.finish_build(token, source.as_deref())
        }
        _ => panic!("Expected a build to begin"),
    };
    assert_eq!(
        Some(MsgSrv::NewFile(
            "/test.md".to_string(),
            vec!["/README.md".to_string(), "/test.md".to_string()]
        )),
        announced
    );

    let (file_test, files) = request(&builder, "/test.md");

    assert!(matches!(builder.file_builder(&MsgInternalBuilder::Exit()), BuilderStep::Stop));

    assert_eq!(2, files.len(), "Expected 2 files");
    assert_eq!(Some(format!("<h1>README</h1>\n")), file);
    assert_eq!(Some(format!("<h1>test header</h1>\n")), file_test);
}

#[test]
fn unbuilt_path_is_a_miss_with_the_listing() {
    let mut builder = Builder::new();
    assert_eq!(FileReply::Ready(None, vec![]), builder.get_file("/nothing.md"));
    builder.initial_build(&sources(&["README.md"]));
    assert_eq!(
        FileReply::Ready(None, vec!["/README.md".to_string()]),
        builder.get_file("/nothing.md")
    );
    assert_eq!(vec!["/README.md".to_string()], builder.get_listing());
}

#[test]
fn reader_waits_for_build_in_flight_and_sees_its_result() {
    let mut builder = Builder::new();
    builder.initial_build(&vec![("a.md".to_string(), Some("old".to_string()))]);
    let token = builder.begin_build("a.md").expect("no build in flight");
    assert!(builder.await_build("/a.md"));
    assert!(!builder.await_build("/b.md"));
    for _ in 0..3 {
        assert_eq!(FileReply::Pending, builder.get_file("/a.md"));
    }
    assert!(builder.process_file(token, Some("new text")));
    assert!(!builder.await_build("/a.md"));
    let first = builder.get_file("/a.md");
    for _ in 0..3 {
        assert_eq!(first, builder.get_file("/a.md"));
    }
    let (file, files) = contents_of(first);
    assert_eq!(Some("<p>new text</p>\n".to_string()), file);
    assert_eq!(vec!["/a.md".to_string()], files);
}

#[test]
fn second_build_of_a_path_in_flight_does_not_begin() {
    let mut builder = Builder::new();
    let mut renders = 0;
    let mut tokens = Vec::new();
    for _ in 0..4 {
        if let Some(token) = builder.begin_build("a.md") {
            tokens.push(token);
        }
    }
    assert_eq!(1, tokens.len());
    assert!(matches!(
        builder.file_builder(&MsgInternalBuilder::FileModified("a.md".to_string())),
        BuilderStep::Busy
    ));
    assert!(matches!(
        builder.file_builder(&MsgInternalBuilder::FileCreated("a.md".to_string())),
        BuilderStep::Busy
    ));
    for token in tokens {
        assert!(builder.process_file(token, Some("text")));
        renders += 1;
    }
    assert_eq!(1, renders);
    assert!(builder.begin_build("a.md").is_some());
    assert!(builder.begin_build("b.md").is_some());
}

#[test]
fn failed_read_keeps_the_stored_artifact() {
    let mut builder = Builder::new();
    builder.initial_build(&vec![("a.md".to_string(), Some("# kept".to_string()))]);
    let before = builder.get_file("/a.md");

    let token = builder.begin_build("a.md").expect("no build in flight");
    assert!(!builder.process_file(token, None));
    assert_eq!(before, builder.get_file("/a.md"));

    let token = builder.begin_build("a.md").expect("token was released");
    assert_eq!(None, builder.finish_build(token, None));
    assert_eq!(before, builder.get_file("/a.md"));
    let (file, _) = contents_of(builder.get_file("/a.md"));
    assert_eq!(Some("<h1>kept</h1>\n".to_string()), file);
}

#[test]
fn failed_read_of_unknown_path_leaves_it_absent() {
    let mut builder = Builder::new();
    builder.initial_build(&vec![("gone.md".to_string(), None)]);
    assert_eq!(FileReply::Ready(None, vec![]), builder.get_file("/gone.md"));
    assert!(!builder.await_build("/gone.md"));
}

#[test]
fn modified_file_is_announced_with_its_artifact() {
    let mut builder = Builder::new();
    builder.initial_build(&sources(&["README.md"]));
    let step = builder.file_builder(&MsgInternalBuilder::FileModified("README.md".to_string()));
    let token = match step {
        BuilderStep::Read(token) => token,
        _ => panic!("Expected a build to begin"),
    };
    assert_eq!("README.md", token.file());
    let announced = builder.finish_build(token, Some("two words"));
    match announced {
        Some(MsgSrv::File(path, file)) => {
            assert_eq!("/README.md", path);
            assert_eq!("<p>two words</p>\n", file.contents);
            assert_eq!(2, file.word_count);
        }
        other => panic!("unexpected announcement {:?}", other),
    }
}

#[test]
fn new_path_is_announced_with_the_listing_in_order() {
    let mut builder = Builder::new();
    builder.initial_build(&vec![
        ("a.md".to_string(), Some("a".to_string())),
        ("b/c.md".to_string(), Some("c".to_string())),
    ]);
    assert_eq!(vec!["/b/c.md".to_string(), "/a.md".to_string()], builder.get_listing());
    let token = match builder.file_builder(&MsgInternalBuilder::FileModified("d/e/f.md".to_string())) {
        BuilderStep::Read(token) => token,
        _ => panic!("Expected a build to begin"),
    };
    let expected = vec!["/d/e/f.md".to_string(), "/b/c.md".to_string(), "/a.md".to_string()];
    assert_eq!(
        Some(MsgSrv::NewFile("/d/e/f.md".to_string(), expected.clone())),
        builder.finish_build(token, Some("f"))
    );
    assert_eq!(expected, builder.get_listing());
}

#[test]
fn created_file_that_is_listed_is_not_built_again() {
    let mut builder = Builder::new();
    builder.initial_build(&sources(&["README.md"]));
    assert!(matches!(
        builder.file_builder(&MsgInternalBuilder::FileCreated("README.md".to_string())),
        BuilderStep::Idle
    ));
    assert!(!builder.await_build("/README.md"));
    assert!(matches!(
        builder.file_builder(&MsgInternalBuilder::FileDeleted("README.md".to_string())),
        BuilderStep::Idle
    ));
    assert!(matches!(builder.file_builder(&MsgInternalBuilder::Ignore()), BuilderStep::Idle));
    let (file, _) = contents_of(builder.get_file("/README.md"));
    assert_eq!(Some("<h1>README</h1>\n".to_string()), file);
}

#[test]
fn initial_build_skips_a_file_whose_build_is_in_flight() {
    let mut builder = Builder::new();
    let token = builder.begin_build("a.md").expect("no build in flight");
    builder.initial_build(&vec![
        ("a.md".to_string(), Some("early".to_string())),
        ("b.md".to_string(), Some("b".to_string())),
    ]);
    assert_eq!(vec!["/b.md".to_string()], builder.get_listing());
    assert_eq!(FileReply::Pending, builder.get_file("/a.md"));
    assert!(builder.process_file(token, Some("late")));
    let (file, files) = contents_of(builder.get_file("/a.md"));
    assert_eq!(Some("<p>late</p>\n".to_string()), file);
    assert_eq!(vec!["/b.md".to_string(), "/a.md".to_string()], files);
}

#[test]
fn server_queries_answers_each_request() {
    let mut builder = Builder::new();
    builder.initial_build(&sources(&["README.md"]));
    let listing = vec!["/README.md".to_string()];
    assert_eq!(QueryReply::AllFiles(listing.clone()), builder.server_queries(&MsgBuilder::AllFiles()));
    assert_eq!(QueryReply::Exit, builder.server_queries(&MsgBuilder::Exit()));
    assert_eq!(
        QueryReply::File(FileReply::Ready(None, listing.clone())),
        builder.server_queries(&MsgBuilder::File("/other.md".to_string()))
    );
    assert_eq!(
        QueryReply::File(FileReply::Ready(None, listing.clone())),
        builder.server_queries(&MsgBuilder::File("/../README.md".to_string()))
    );
    assert_eq!(
        builder.server_queries(&MsgBuilder::File("/README.md".to_string())),
        builder.server_queries(&MsgBuilder::File("/%52EADME.md".to_string()))
    );
    match builder.server_queries(&MsgBuilder::File("/README.md".to_string())) {
        QueryReply::File(FileReply::Ready(Some(file), files)) => {
            assert_eq!("<h1>README</h1>\n", file.contents);
            assert_eq!(2, file.word_count);
            assert_eq!(listing, files);
        }
        other => panic!("unexpected reply {:?}", other),
    }
}

#[test]
fn root_that_is_no_directory_ends_the_servers() {
    assert_eq!(Some(MsgSrv::Exit()), md_dir_builder::builder::builder_with_fs_change(RootKind::Missing).err());
    assert_eq!(Some(MsgSrv::Exit()), md_dir_builder::builder::builder_with_fs_change(RootKind::NotDirectory).err());
    assert!(md_dir_builder::builder::builder_with_fs_change(RootKind::Directory).is_ok());
}

#[test]
fn artifact_of_another_renderer_is_stored_as_it_is() {
    let mut builder = Builder::new();
    let artifact = md_dir_builder::builder::BuiltFile::from_rendering(
        "<p>by hand</p>".to_string(),
        "three little words",
    );
    assert_eq!(3, artifact.word_count);
    let token = builder.begin_build("b.md").expect("no build in flight");
    assert!(builder.process_built(token, Some(artifact.clone())));
    let token = builder.begin_build("a.md").expect("no build in flight");
    assert!(builder.process_built(token, Some(artifact.clone())));
    assert_eq!(vec!["/b.md".to_string(), "/a.md".to_string()], builder.get_listing());
    builder.sort_listing();
    assert_eq!(vec!["/a.md".to_string(), "/b.md".to_string()], builder.get_listing());
    assert_eq!(
        FileReply::Ready(Some(artifact.clone()), vec!["/a.md".to_string(), "/b.md".to_string()]),
        builder.get_file("/a.md")
    );

    let token = builder.begin_build("a.md").expect("token was released");
    let newer = md_dir_builder::builder::BuiltFile::from_rendering("<p>newer</p>".to_string(), "");
    assert_eq!(
        Some(MsgSrv::File("/a.md".to_string(), newer.clone())),
        builder.finish_built(token, Some(newer))
    );
    let token = builder.begin_build("a.md").expect("token was released");
    assert!(!builder.process_built(token, None));
    let token = builder.begin_build("c/d.md").expect("no build in flight");
    assert_eq!(
        Some(MsgSrv::NewFile(
            "/c/d.md".to_string(),
            vec!["/c/d.md".to_string(), "/a.md".to_string(), "/b.md".to_string()]
        )),
        builder.finish_built(token, Some(artifact))
    );
}

#[test]
fn discovery_and_initial_build_end_to_end() {
    let mut scan = Scan::new();
    while let Some(dir) = scan.next_dir() {
        let entries = match dir.as_str() {
            "" => vec![
                DirEntry { name: "README.md".to_string(), is_dir: false },
                DirEntry { name: ".git".to_string(), is_dir: true },
                DirEntry { name: "test.md".to_string(), is_dir: false },
                DirEntry { name: "notes.txt".to_string(), is_dir: false },
            ],
            other => panic!("{} should not be read", other),
        };
        scan.feed(&dir, &entries);
    }
    let found = scan.files();
    assert_eq!(vec!["README.md", "test.md"], found);

    let read: Vec<(String, Option<String>)> =
        found.into_iter().map(|file| { let text = fs_read_file(&file); (file, text) }).collect();
    let mut builder = Builder::new();
    builder.initial_build(&read);

    match builder.get_file("/README.md") {
        FileReply::Ready(Some(file), files) => {
            assert_eq!("<h1>README</h1>\n", file.contents);
            assert_eq!(2, files.len());
        }
        other => panic!("unexpected reply {:?}", other),
    }
}
