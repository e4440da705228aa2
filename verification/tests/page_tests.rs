use mailsync::envelope::Envelope;
use mailsync::page::{imap_fetch_range, page_envelopes, paginate, ListEnvelopesError};

fn listing(n: usize) -> Vec<Envelope> {
    (0..n)
        .map(|k| Envelope {
            id: format!("{}", k),
            internal_id: format!("{}", k),
            ..Envelope::default()
        })
        .collect()
}

#[test]
fn zero_page_size_returns_everything_in_one_page() {
    let v = listing(7);
    let page = page_envelopes(&v, 0, 0).unwrap();
    assert_eq!(page.len(), 7);
    assert_eq!(paginate(7, 0, 3).unwrap(), (0, 7));
}

#[test]
fn page_past_the_end_is_out_of_bounds() {
    let v = listing(25);
    // page * page_size == 30 >= 25: out of range.
    let err = page_envelopes(&v, 10, 3).unwrap_err();
    assert!(matches!(err, ListEnvelopesError::OutOfBounds(3)));
    // The boundary itself: 20 < 25 is still in range, 30 is not.
    assert!(page_envelopes(&v, 10, 2).is_ok());
    assert!(matches!(paginate(25, 10, 3), Err(ListEnvelopesError::OutOfBounds(3))));
}

#[test]
fn last_page_is_short() {
    let v = listing(25);
    let page = page_envelopes(&v, 10, 2).unwrap();
    assert_eq!(page.len(), 5);
    assert_eq!(page[0].id, "20");
    assert_eq!(page[4].id, "24");
}

#[test]
fn empty_listing_pages_out_of_range_unless_unbounded() {
    let v = listing(0);
    assert!(matches!(
        page_envelopes(&v, 10, 0),
        Err(ListEnvelopesError::OutOfBounds(0))
    ));
    let page = page_envelopes(&v, 0, 0).unwrap();
    assert_eq!(page.len(), 0);
}

#[test]
fn imap_range_descends_by_recency() {
    assert_eq!(imap_fetch_range(3, 0, 0).unwrap(), "1:*");
    assert_eq!(imap_fetch_range(3, 10, 0).unwrap(), "3,2,1");
    assert_eq!(imap_fetch_range(3, 2, 0).unwrap(), "3,2");
    assert_eq!(imap_fetch_range(3, 2, 1).unwrap(), "1");
    assert!(matches!(
        imap_fetch_range(3, 2, 2),
        Err(ListEnvelopesError::OutOfBounds(2))
    ));
}

#[test]
fn sorting_orders_by_date_newest_first() {
    let mut v = listing(3);
    v[0].date = 5;
    v[1].date = 9;
    v[2].date = 7;
    let sorted = mailsync::page::sort_by_date_desc(v);
    let dates: Vec<i64> = sorted.iter().map(|e| e.date).collect();
    assert_eq!(dates, vec![9, 7, 5]);
    let ids: Vec<&str> = sorted.iter().map(|e| e.id.as_str()).collect();
    assert_eq!(ids, vec!["1", "2", "0"]);
}

#[test]
fn search_pages_join_their_uids() {
    let uids: Vec<String> = ["19", "7", "3", "2", "1"].iter().map(|s| s.to_string()).collect();
    assert_eq!(mailsync::page::search_uid_page(&uids, 0, 0).unwrap(), "19,7,3,2,1");
    assert_eq!(mailsync::page::search_uid_page(&uids, 2, 0).unwrap(), "19,7");
    assert_eq!(mailsync::page::search_uid_page(&uids, 2, 2).unwrap(), "1");
    assert!(matches!(
        mailsync::page::search_uid_page(&uids, 2, 3),
        Err(mailsync::page::ListEnvelopesError::OutOfBounds(3))
    ));
}
