use novelter::scrape::RanobesChapters;
use novelter::store::{
    convert_data_to_sql_chapters_all_models, convert_data_to_sql_novel_one_model, ChapterDraft,
    NovelDraft, NovelStore, PersistError,
};

fn draft(name: &str) -> NovelDraft {
    NovelDraft {
        name: name.to_string(),
        path_to_img: format!("imgs/{}.avif", name),
        total_chapters: 2,
    }
}

fn chapters() -> Vec<ChapterDraft> {
    vec![
        ChapterDraft { title: "One".to_string(), content: vec![1, 2] },
        ChapterDraft { title: "Two".to_string(), content: vec![3] },
    ]
}

#[test]
fn commit_writes_image_then_parent_then_children() {
    let mut store = NovelStore::new();
    let r = store.create_novel_with_chapters_and_load_avif(draft("a"), chapters(), &vec![9, 9]);
    assert!(r.is_ok());

    assert_eq!(store.txn_opens, 1);
    assert_eq!(store.images.len(), 1);
    assert_eq!(store.images[0].0, "imgs/a.avif");
    assert_eq!(store.images[0].1, vec![9, 9]);

    assert_eq!(store.novels.len(), 1);
    assert_eq!(store.novels[0].id, 1);
    assert_eq!(store.novels[0].name, "a");
    assert_eq!(store.novels[0].total_chapters, 2);

    assert_eq!(store.chapters.len(), 2);
    assert_eq!(store.chapters[0].id, 1);
    assert_eq!(store.chapters[0].title, "One");
    assert_eq!(store.chapters[0].content, vec![1, 2]);
    assert_eq!(store.chapters[0].novel_id, 1);
    assert_eq!(store.chapters[1].id, 2);
    assert_eq!(store.chapters[1].novel_id, 1);
}

#[test]
fn identities_keep_counting_across_commits() {
    let mut store = NovelStore::new();
    store.create_novel_with_chapters_and_load_avif(draft("a"), chapters(), &vec![1]).unwrap();
    store.create_novel_with_chapters_and_load_avif(draft("b"), chapters(), &vec![2]).unwrap();
    assert_eq!(store.novels[1].id, 2);
    assert_eq!(store.chapters[2].id, 3);
    assert_eq!(store.chapters[2].novel_id, 2);
    assert_eq!(store.chapters[3].novel_id, 2);
}

#[test]
fn failed_child_insert_rolls_the_whole_item_back() {
    let mut store = NovelStore::new();
    store.fail_child_insert = true;
    let r = store.create_novel_with_chapters_and_load_avif(draft("a"), chapters(), &vec![7]);
    assert!(matches!(r, Err(PersistError::Insert)));

    // Zero rows for the parent and zero for its children survive the
    // rollback; the transaction was opened, and the image stays orphaned.
    assert_eq!(store.novels.len(), 0);
    assert_eq!(store.chapters.len(), 0);
    assert_eq!(store.txn_opens, 1);
    assert_eq!(store.images.len(), 1);
}

#[test]
fn failed_image_encoding_opens_no_transaction() {
    let mut store = NovelStore::new();
    store.fail_image_encode = true;
    let r = store.create_novel_with_chapters_and_load_avif(draft("a"), chapters(), &vec![7]);
    assert!(matches!(r, Err(PersistError::ImageEncode)));

    assert_eq!(store.txn_opens, 0);
    assert_eq!(store.images.len(), 0);
    assert_eq!(store.novels.len(), 0);
    assert_eq!(store.chapters.len(), 0);
}

#[test]
fn drafts_carry_the_crawled_fields() {
    let novel = convert_data_to_sql_novel_one_model("name".to_string(), "p".to_string(), 7);
    assert_eq!(novel.name, "name");
    assert_eq!(novel.path_to_img, "p");
    assert_eq!(novel.total_chapters, 7);

    let data = vec![
        RanobesChapters::new("c1".to_string(), vec![1]),
        RanobesChapters::new("c2".to_string(), vec![2, 2]),
    ];
    let drafts = convert_data_to_sql_chapters_all_models(data);
    assert_eq!(drafts.len(), 2);
    assert_eq!(drafts[0].title, "c1");
    assert_eq!(drafts[0].content, vec![1]);
    assert_eq!(drafts[1].title, "c2");
    assert_eq!(drafts[1].content, vec![2, 2]);
}
