//! The transactional persistence model: a parent record and its child
//! records are committed as one unit, after the cover image is written, and
//! a failure inside the transaction rolls every row of it back. The store
//! is an in-memory model of the storage engine with injectable faults, so
//! the commit sequence itself is verified and testable; the shells around
//! the library may mirror it onto any real engine.

use vstd::prelude::*;
use crate::scrape::RanobesChapters;

verus! {

/// A committed parent row: identity, display name, stored image path, and
/// the declared chapter count.
pub struct NovelRow {
    pub id: i32,
    pub name: String,
    pub path_to_img: String,
    pub total_chapters: i32,
}

/// A committed child row: identity, title, compressed content, and the
/// identity of the owning parent.
pub struct ChapterRow {
    pub id: i32,
    pub title: String,
    pub content: Vec<u8>,
    pub novel_id: i32,
}

/// A parent row waiting for its identity.
pub struct NovelDraft {
    pub name: String,
    pub path_to_img: String,
    pub total_chapters: i32,
}

/// A child row waiting for its identity and its parent's identity.
pub struct ChapterDraft {
    pub title: String,
    pub content: Vec<u8>,
}

/// Why a commit failed.
#[derive(Clone, Copy, Debug, PartialEq, Eq, Structural)]
pub enum PersistError {
    /// The image could not be decoded or re-encoded; no transaction was
    /// opened.
    ImageEncode,
    /// An insert inside the transaction failed; the transaction was rolled
    /// back whole.
    Insert,
}

/// The child rows that a bulk insert appends: identities continue from
/// `first_id`, the owning parent is `novel_id`, and draft order is kept.
pub open spec fn stamped_rows(first_id: int, drafts: Seq<ChapterDraft>, novel_id: i32) -> Seq<
    ChapterRow,
> {
    Seq::new(
        drafts.len(),
        |i: int|
            ChapterRow {
                id: (first_id + i) as i32,
                title: drafts[i].title,
                content: drafts[i].content,
                novel_id,
            },
    )
}

/// An in-memory model of the storage engine: the two tables, the written
/// image files, a count of opened transactions, and two injectable faults.
pub struct NovelStore {
    /// Parent rows, identity `k + 1` at position `k`.
    pub novels: Vec<NovelRow>,
    /// Child rows, identity `k + 1` at position `k`.
    pub chapters: Vec<ChapterRow>,
    /// Image files written to durable storage, in write order.
    pub images: Vec<(String, Vec<u8>)>,
    /// How many transactions were opened.
    pub txn_opens: u64,
    /// Injected fault: the image write step fails.
    pub fail_image_encode: bool,
    /// Injected fault: the bulk insert of child rows fails inside the
    /// transaction.
    pub fail_child_insert: bool,
}

impl NovelStore {
    /// Storage invariant: identities are their position plus one, so they
    /// are unique, and every child points at an existing parent — no
    /// orphan rows.
    pub open spec fn wf(self) -> bool {
        &&& self.novels@.len() + 1 <= i32::MAX
        &&& self.chapters@.len() + 1 <= i32::MAX
        &&& forall|k: int|
            0 <= k < self.novels@.len() ==> #[trigger] self.novels@[k].id == k + 1
        &&& forall|k: int|
            0 <= k < self.chapters@.len() ==> #[trigger] self.chapters@[k].id == k + 1
        &&& forall|k: int|
            0 <= k < self.chapters@.len() ==> 1 <= #[trigger] self.chapters@[k].novel_id
                <= self.novels@.len()
    }

    /// An empty store without injected faults.
    pub fn new() -> (r: NovelStore)
        ensures
            r.wf(),
            r.novels@.len() == 0,
            r.chapters@.len() == 0,
            r.images@.len() == 0,
            r.txn_opens == 0,
            !r.fail_image_encode,
            !r.fail_child_insert,
    {
        NovelStore {
            novels: Vec::new(),
            chapters: Vec::new(),
            images: Vec::new(),
            txn_opens: 0,
            fail_image_encode: false,
            fail_child_insert: false,
        }
    }

    /// Commits one crawled item: writes the cover image, then inserts the
    /// parent row and all child rows in one transaction.
    ///
    /// The order is strict. If the image step fails, no transaction is
    /// opened and nothing at all is persisted. If the child insert fails
    /// after the parent insert, the transaction rolls back whole — zero
    /// rows remain of either — while the already-written image stays as an
    /// accepted orphan, to be reused on a retry of the same title. On
    /// success the parent receives the next identity and the children
    /// follow it in draft order.
    pub fn create_novel_with_chapters_and_load_avif(
        &mut self,
        novel: NovelDraft,
        chapter_drafts: Vec<ChapterDraft>,
        img: &Vec<u8>,
    ) -> (r: Result<(), PersistError>)
        requires
            old(self).wf(),
            old(self).novels@.len() + 2 <= i32::MAX,
            old(self).chapters@.len() + chapter_drafts@.len() + 1 <= i32::MAX,
            old(self).txn_opens < u64::MAX,
        ensures
            final(self).wf(),
            final(self).fail_image_encode == old(self).fail_image_encode,
            final(self).fail_child_insert == old(self).fail_child_insert,
            r matches Err(PersistError::ImageEncode) <==> old(self).fail_image_encode,
            old(self).fail_image_encode ==> *final(self) == *old(self),
            !old(self).fail_image_encode ==> {
                &&& final(self).images@.len() == old(self).images@.len() + 1
                &&& final(self).images@.subrange(0, old(self).images@.len() as int) == old(
                    self,
                ).images@
                &&& final(self).images@.last().0@ == novel.path_to_img@
                &&& final(self).images@.last().1@ == img@
                &&& final(self).txn_opens == old(self).txn_opens + 1
            },
            r matches Err(PersistError::Insert) <==> (!old(self).fail_image_encode && old(
                self,
            ).fail_child_insert),
            !old(self).fail_image_encode && old(self).fail_child_insert ==> final(self).novels@
                == old(self).novels@ && final(self).chapters@ == old(self).chapters@,
            r is Ok <==> !old(self).fail_image_encode && !old(self).fail_child_insert,
            r is Ok ==> final(self).novels@ == old(self).novels@.push(
                NovelRow {
                    id: (old(self).novels@.len() + 1) as i32,
                    name: novel.name,
                    path_to_img: novel.path_to_img,
                    total_chapters: novel.total_chapters,
                },
            ) && final(self).chapters@ == old(self).chapters@ + stamped_rows(
                old(self).chapters@.len() as int + 1,
                chapter_drafts@,
                (old(self).novels@.len() + 1) as i32,
            ),
    {
        // Step 1: the image is written to durable storage strictly before
        // any transaction is opened.
        if self.fail_image_encode {
            return Err(PersistError::ImageEncode);
        }
        let path = novel.path_to_img.clone();
        let mut img_copy: Vec<u8> = Vec::new();
        let n = img.len();
        let mut i: usize = 0;
        while i < n
            invariant
                n == img@.len(),
                i <= n,
                img_copy@ == img@.subrange(0, i as int),
            decreases n - i,
        {
            img_copy.push(img[i]);
            assert(img_copy@ =~= img@.subrange(0, i + 1 as int));
            i = i + 1;
        }
        assert(img_copy@ =~= img@);
        let ghost images0 = self.images@;
        self.images.push((path, img_copy));
        proof {
            assert(self.images@.subrange(0, images0.len() as int) =~= images0);
        }

        // Step 2: open the transaction and insert the parent row.
        self.txn_opens = self.txn_opens + 1;
        let novels_before = self.novels.len();
        let chapters_before = self.chapters.len();
        let novel_id: i32 = (novels_before + 1) as i32;
        self.novels.push(
            NovelRow {
                id: novel_id,
                name: novel.name,
                path_to_img: novel.path_to_img,
                total_chapters: novel.total_chapters,
            },
        );

        // Step 3: stamp every child draft with the parent's fresh identity
        // and bulk-insert them in draft order.
        let ghost mid = *self;
        let ghost all = chapter_drafts@;
        let m = chapter_drafts.len();
        let mut drafts = chapter_drafts;
        let mut j: usize = 0;
        proof {
            assert(all.subrange(0, 0) =~= Seq::<ChapterDraft>::empty());
            assert(stamped_rows(chapters_before + 1, all.subrange(0, 0), novel_id) =~= Seq::<
                ChapterRow,
            >::empty());
            assert(self.chapters@ =~= self.chapters@ + stamped_rows(
                chapters_before + 1,
                all.subrange(0, 0),
                novel_id,
            ));
            assert(drafts@ =~= all.skip(0));
        }
        while j < m
            invariant
                m == all.len(),
                j <= m,
                drafts@ == all.skip(j as int),
                chapters_before + m + 1 <= i32::MAX,
                chapters_before == mid.chapters@.len(),
                self.chapters@ == mid.chapters@ + stamped_rows(
                    chapters_before + 1,
                    all.subrange(0, j as int),
                    novel_id,
                ),
                self.novels == mid.novels,
                self.images == mid.images,
                self.txn_opens == mid.txn_opens,
                self.fail_image_encode == mid.fail_image_encode,
                self.fail_child_insert == mid.fail_child_insert,
            decreases m - j,
        {
            let ghost rows0 = self.chapters@;
            let d = drafts.remove(0);
            proof {
                assert(d == all[j as int]);
                assert(drafts@ =~= all.skip(j + 1));
            }
            let cid: i32 = (chapters_before + j + 1) as i32;
            self.chapters.push(ChapterRow { id: cid, title: d.title, content: d.content, novel_id });
            proof {
                let row = ChapterRow {
                    id: cid,
                    title: all[j as int].title,
                    content: all[j as int].content,
                    novel_id,
                };
                assert(self.chapters@ =~= rows0.push(row));
                assert(stamped_rows(chapters_before + 1, all.subrange(0, j + 1), novel_id)
                    =~= stamped_rows(chapters_before + 1, all.subrange(0, j as int), novel_id).push(
                    row,
                ));
                assert(self.chapters@ =~= mid.chapters@ + stamped_rows(
                    chapters_before + 1,
                    all.subrange(0, j + 1),
                    novel_id,
                ));
            }
            j = j + 1;
        }
        proof {
            assert(all.subrange(0, m as int) =~= all);
        }

        // Steps 4 to 6: a failure inside the transaction rolls the parent
        // and its children back whole; otherwise the transaction commits.
        if self.fail_child_insert {
            self.novels.truncate(novels_before);
            self.chapters.truncate(chapters_before);
            proof {
                assert(self.novels@ =~= old(self).novels@);
                assert(self.chapters@ =~= old(self).chapters@);
            }
            return Err(PersistError::Insert);
        }
        proof {
            let rows = stamped_rows(chapters_before + 1, all, novel_id);
            assert forall|k: int| 0 <= k < self.chapters@.len() implies #[trigger] self.chapters@[
                k
            ].id == k + 1 by {
                if k >= chapters_before {
                    assert(self.chapters@[k] == rows[k - chapters_before]);
                }
            }
            assert forall|k: int| 0 <= k < self.chapters@.len() implies 1
                <= #[trigger] self.chapters@[k].novel_id <= self.novels@.len() by {
                if k >= chapters_before {
                    assert(self.chapters@[k] == rows[k - chapters_before]);
                }
            }
            assert forall|k: int| 0 <= k < self.novels@.len() implies #[trigger] self.novels@[k].id
                == k + 1 by {
                if k < novels_before {
                    assert(self.novels@[k] == old(self).novels@[k]);
                }
            }
        }
        Ok(())
    }
}

/// Shapes one crawled item's metadata into a parent draft.
pub fn convert_data_to_sql_novel_one_model(
    name: String,
    path_to_img: String,
    total_chapters: i32,
) -> (r: NovelDraft)
    ensures
        r.name == name,
        r.path_to_img == path_to_img,
        r.total_chapters == total_chapters,
{
    NovelDraft { name, path_to_img, total_chapters }
}

/// Shapes the fetched chapters into child drafts, keeping their order; the
/// owning parent's identity is stamped later, inside the transaction.
pub fn convert_data_to_sql_chapters_all_models(data: Vec<RanobesChapters>) -> (r: Vec<ChapterDraft>)
    ensures
        r@.len() == data@.len(),
        forall|k: int|
            0 <= k < data@.len() ==> #[trigger] r@[k].title == data@[k].title && r@[k].content
                == data@[k].content,
{
    let ghost all = data@;
    let m = data.len();
    let mut rest = data;
    let mut r: Vec<ChapterDraft> = Vec::new();
    let mut j: usize = 0;
    while j < m
        invariant
            m == all.len(),
            j <= m,
            rest@ == all.skip(j as int),
            r@.len() == j,
            forall|k: int|
                0 <= k < j ==> #[trigger] r@[k].title == all[k].title && r@[k].content
                    == all[k].content,
        decreases m - j,
    {
        let d = rest.remove(0);
        proof {
            assert(d == all[j as int]);
            assert(rest@ =~= all.skip(j + 1));
        }
        r.push(ChapterDraft { title: d.title, content: d.content });
        j = j + 1;
    }
    r
}

} // verus!
