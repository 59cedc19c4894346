use tendril::server_config::default_config_text;
use tendril::meta::NoteMeta;
use tendril::setup::{
    apply_options, config_options, migrate_note, migrate_text, migration_action, needs_sync,
    process_note, static_index_body, static_page_location, wants_password, wants_sync, Config,
    ConfigOptions, General, MigrationAction, Sync,
};
use tendril::store::LinkStore;
use tendril::templates::TemplattedPage;
use tendril::metadata::Metadata;

#[test]
fn old_notes_are_converted() {
    let old = "---\ntitle: T\n---\n# Heading #\n## Sub\n---\ntext";
    assert_eq!(migrate_text(old), "title: T\n\n\n#  Heading \n#  Sub\n\n\ntext");
    assert_eq!(migrate_text("\n---\na: b"), "a: b");
}

#[test]
fn converted_bookmarks_are_html() {
    let note = migrate_note("---\ntitle: B\ntags: [bookmark]\n---\nbody");
    assert_eq!(note, "title: B\ntags: [bookmark]\ncontent-type: html\n\n\nbody");
    let kept = migrate_note("---\ntitle: B\ntags: [x]\n---\nbody");
    assert_eq!(kept, "title: B\ntags: [x]\n\n\nbody");
}

#[test]
fn conversion_acts_by_file_name() {
    assert_eq!(migration_action("todo.txt"), MigrationAction::MoveTodo);
    assert_eq!(migration_action("note.md"), MigrationAction::Convert);
    assert_eq!(migration_action("image.png"), MigrationAction::Keep);
}

#[test]
fn setup_answers_are_read() {
    assert!(wants_sync("yes\n"));
    assert!(wants_sync("t\n"));
    assert!(!wants_sync("no\n"));
    assert!(wants_password("y\n"));
    assert!(!wants_password("n\n"));
    let o = config_options("\n", "\n", "\n", "y\n", "\n", "alice", "/home/a");
    assert!(o.enable_sync);
    assert_eq!(o.wiki_location, "/home/a/wiki/");
    assert_eq!(o.media_location, "/home/a/wiki_media/");
    assert_eq!(o.branch, "main");
    assert_eq!(o.user, "alice");
    let o = config_options("bob\n", "/w\n", "/m\n", "n\n", "", "alice", "/home/a");
    assert!(!o.enable_sync);
    assert_eq!(o.wiki_location, "/w/");
    assert_eq!(o.media_location, "/m/");
    assert_eq!(o.branch, "");
    assert_eq!(o.user, "bob");
    let o = config_options("bob", "/w\n", "/m", "n\n", "dev\n", "alice", "/home/a");
    assert_eq!(o.media_location, "/w\n/");
    assert_eq!(o.branch, "dev");
}

#[test]
fn setup_answers_go_into_the_configuration() {
    let conf = Config {
        general: General {
            wiki_location: String::new(),
            port: 6683,
            user: String::new(),
            pass: "p".into(),
            version: "1".into(),
            media_location: String::new(),
            host: "h".into(),
        },
        sync: Sync { use_git: false, sync_interval: 5, branch: String::new() },
    };
    let options = ConfigOptions {
        wiki_location: "/w/".into(),
        media_location: "/m/".into(),
        enable_sync: true,
        branch: "main".into(),
        user: "u".into(),
    };
    let c = apply_options(conf, options, None);
    assert_eq!(c.general.user, "u");
    assert_eq!(c.general.wiki_location, "/w/");
    assert_eq!(c.general.port, 6683);
    assert!(c.sync.use_git);
    assert_eq!(c.sync.sync_interval, 5);
    assert_eq!(c.general.pass, "p");
}

#[test]
fn setup_stores_the_password_hash() {
    let conf = Config {
        general: General {
            wiki_location: String::new(),
            port: 6683,
            user: String::new(),
            pass: String::new(),
            version: "1".into(),
            media_location: String::new(),
            host: "h".into(),
        },
        sync: Sync { use_git: false, sync_interval: 5, branch: String::new() },
    };
    let options = ConfigOptions {
        wiki_location: "/w/".into(),
        media_location: "/m/".into(),
        enable_sync: false,
        branch: String::new(),
        user: "u".into(),
    };
    let c = apply_options(conf, options, Some("hashed".into()));
    assert_eq!(c.general.pass, "hashed");
}

#[test]
fn git_status_output_means_sync() {
    assert!(needs_sync(" M note.txt\n"));
    assert!(!needs_sync(""));
}

fn page(title: &str) -> TemplattedPage {
    TemplattedPage {
        title: title.into(),
        body: String::new(),
        tags: vec![],
        raw_md: String::new(),
        metadata: Metadata::new(),
    }
}

#[test]
fn static_site_index_lists_pages() {
    assert_eq!(
        static_index_body(&vec![page("A"), page("B")]),
        "<h1>Pages</h1><ul style=\"margin: 1rem 0rem;\"><li><a href=\"A\">A</a></li><li><a href=\"B\">B</a></li></ul>"
    );
    assert_eq!(
        static_page_location("a/b"),
        ("public/a-b".to_string(), "public/a-b/index.html".to_string())
    );
}

#[test]
fn notes_join_the_build() {
    let note = NoteMeta::from_string("---\ntitle: N\ntags: [t]\n---\nsee [[Other page]]".into());
    let mut store = LinkStore::new();
    let mut pages = Vec::new();
    process_note(&note, &mut store, &mut pages);
    assert_eq!(store.get("Other page"), Some(&vec!["N".to_string()]));
    assert_eq!(store.get("t"), Some(&vec!["N".to_string()]));
    assert_eq!(pages.len(), 1);
    assert_eq!(pages[0].title, "N");
}

#[test]
fn server_config_defaults_to_home_wiki() {
    assert_eq!(default_config_text(), "wiki_location = \"~/wiki\"\nport = 6683");
}
