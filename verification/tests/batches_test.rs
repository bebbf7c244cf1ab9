use novelter::batches::{plan_batches, BatchCrawl, CrawlStats};
use novelter::scrape::page_count_from_signals;

fn strings(items: &[&str]) -> Vec<String> {
    items.iter().map(|s| s.to_string()).collect()
}

#[test]
fn batches_partition_pages_in_order() {
    assert_eq!(plan_batches(3, 2), vec![vec![1, 2], vec![3]]);
    assert_eq!(plan_batches(4, 2), vec![vec![1, 2], vec![3, 4]]);
    assert_eq!(plan_batches(5, 1), vec![vec![1], vec![2], vec![3], vec![4], vec![5]]);
    assert_eq!(plan_batches(2, 10), vec![vec![1, 2]]);
    assert_eq!(plan_batches(0, 3), Vec::<Vec<u32>>::new());
}

#[test]
fn no_wave_exceeds_the_batch_size() {
    for pages in 0..20u32 {
        for batch in 1..6u32 {
            let waves = plan_batches(pages, batch);
            let mut next = 1u32;
            for wave in &waves {
                assert!(!wave.is_empty());
                assert!(wave.len() <= batch as usize);
                for &p in wave {
                    assert_eq!(p, next);
                    next += 1;
                }
            }
            assert_eq!(next, pages + 1);
        }
    }
}

#[test]
fn listing_with_three_pages_crawls_in_two_waves() {
    // End to end: the embedded script announces three pages; with a batch
    // size of two the crawl issues pages 1 and 2 together, then page 3,
    // and the links come back in page order, in-page order kept.
    let script = "window.__DATA__ = {\"pages_count\": 3}".to_string();
    let pages = page_count_from_signals(&vec![script], &None);
    assert_eq!(pages, 3);

    let mut crawl = BatchCrawl::new(pages, 2);
    let mut waves_seen = 0;

    let wave1 = crawl.current_wave().expect("first wave");
    assert_eq!(wave1, vec![1, 2]);
    waves_seen += 1;
    crawl.wave_done(&vec![strings(&["a1", "a2"]), strings(&["b1"])]);

    let wave2 = crawl.current_wave().expect("second wave");
    assert_eq!(wave2, vec![3]);
    waves_seen += 1;
    crawl.wave_done(&vec![strings(&["c1", "c2"])]);

    assert!(crawl.current_wave().is_none());
    assert_eq!(waves_seen, 2);
    assert_eq!(crawl.links, strings(&["a1", "a2", "b1", "c1", "c2"]));
}

#[test]
fn failed_pages_contribute_nothing_but_do_not_stop_the_wave() {
    let mut crawl = BatchCrawl::new(2, 2);
    let wave = crawl.current_wave().expect("one wave");
    assert_eq!(wave, vec![1, 2]);
    crawl.wave_done(&vec![Vec::new(), strings(&["only"])]);
    assert!(crawl.current_wave().is_none());
    assert_eq!(crawl.links, strings(&["only"]));
}

#[test]
fn crawl_counters_track_each_kind() {
    let mut stats = CrawlStats::new();
    stats.record_page_ok();
    stats.record_page_ok();
    stats.record_page_failed();
    stats.record_challenge();
    assert_eq!(stats.pages_ok, 2);
    assert_eq!(stats.pages_failed, 1);
    assert_eq!(stats.challenges_seen, 1);
}
