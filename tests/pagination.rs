use spowerify::model::{MediaItem, PlaylistEntry, Track};
use spowerify::paginator::{InvalidPageSize, OversizedPage, PageRequest, PageStep, Paginator};

fn track_entry(n: usize) -> PlaylistEntry {
    PlaylistEntry {
        item: Some(MediaItem::Track(Track {
            id: Some(format!("id{}", n)),
            name: format!("song {}", n),
            artists: vec![format!("artist {}", n)],
            duration_ms: 180_000,
            is_playable: Some(true),
        })),
        is_local: false,
    }
}

fn source_of(n: usize) -> Vec<PlaylistEntry> {
    (0..n).map(track_entry).collect()
}

fn serve(source: &[PlaylistEntry], req: PageRequest) -> Vec<PlaylistEntry> {
    let start = req.offset.min(source.len());
    let end = (req.offset + req.limit).min(source.len());
    source[start..end].to_vec()
}

/// Drives a paginator against an in-memory source; returns the page sizes seen and the result.
fn drain(source: &[PlaylistEntry], page_size: usize) -> (Vec<usize>, Vec<PlaylistEntry>) {
    let mut p = Paginator::new(page_size).unwrap();
    let mut req = p.next_request();
    let mut sizes = Vec::new();
    loop {
        let page = serve(source, req);
        sizes.push(page.len());
        match p.receive_page(page).unwrap() {
            PageStep::Fetch(next) => req = next,
            PageStep::Done => break,
        }
    }
    (sizes, p.into_shuffled_entries())
}

fn sorted_names(entries: &[PlaylistEntry]) -> Vec<String> {
    let mut names: Vec<String> = entries
        .iter()
        .map(|e| match &e.item {
            Some(MediaItem::Track(t)) => t.name.clone(),
            _ => String::new(),
        })
        .collect();
    names.sort();
    names
}

#[test]
fn seventy_entries_over_pages_of_64() {
    let source = source_of(70);
    let (sizes, entries) = drain(&source, 64);
    assert_eq!(sizes, vec![64, 6, 0]);
    assert_eq!(entries.len(), 70);
    assert_eq!(sorted_names(&entries), sorted_names(&source));
}

#[test]
fn exact_multiple_of_page_size_needs_one_more_fetch() {
    let source = source_of(128);
    let (sizes, entries) = drain(&source, 64);
    assert_eq!(sizes, vec![64, 64, 0]);
    assert_eq!(entries.len(), 128);
}

#[test]
fn completeness_for_many_sizes() {
    for n in 0..140 {
        for page_size in [1usize, 7, 64] {
            let source = source_of(n);
            let (sizes, entries) = drain(&source, page_size);
            assert_eq!(sizes.len(), (n + page_size - 1) / page_size + 1);
            assert_eq!(entries.len(), n);
            assert_eq!(sorted_names(&entries), sorted_names(&source));
        }
    }
}

#[test]
fn empty_source_takes_one_fetch() {
    let (sizes, entries) = drain(&[], 64);
    assert_eq!(sizes, vec![0]);
    assert!(entries.is_empty());
}

#[test]
fn requests_follow_received_counts() {
    let mut p = Paginator::new(64).unwrap();
    assert_eq!(p.next_request(), PageRequest { offset: 0, limit: 64 });
    let step = p.receive_page(source_of(64)).unwrap();
    assert_eq!(step, PageStep::Fetch(PageRequest { offset: 64, limit: 64 }));
    let step = p.receive_page(source_of(6)).unwrap();
    assert_eq!(step, PageStep::Fetch(PageRequest { offset: 70, limit: 64 }));
    assert_eq!(p.next_request(), PageRequest { offset: 70, limit: 64 });
    assert_eq!(p.receive_page(Vec::new()), Ok(PageStep::Done));
}

#[test]
fn zero_page_size_is_refused() {
    assert!(matches!(Paginator::new(0), Err(InvalidPageSize)));
}

#[test]
fn oversized_page_is_refused() {
    let mut p = Paginator::new(4).unwrap();
    assert_eq!(p.receive_page(source_of(5)), Err(OversizedPage));
    assert_eq!(p.next_request(), PageRequest { offset: 0, limit: 4 });
    assert_eq!(p.receive_page(source_of(4)), Ok(PageStep::Fetch(PageRequest { offset: 4, limit: 4 })));
}

#[test]
fn shuffle_reorders_entries() {
    let source = source_of(100);
    let (_, entries) = drain(&source, 64);
    assert_eq!(sorted_names(&entries), sorted_names(&source));
    assert_ne!(entries, source);
}
