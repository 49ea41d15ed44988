use deepwell::error::AuthError;
use deepwell::parent::{PageParentTable, ParentService};
use deepwell::ratelimit::bypasses_rate_limit;
use deepwell::revision::{CreateRevisionOutput, PageRevision, RevisionService};

#[test]
fn parent_links() {
    let mut t = PageParentTable::new();
    assert!(ParentService::add_child(&mut t, 1, 2));
    assert!(!ParentService::add_child(&mut t, 1, 2));
    assert!(ParentService::add_child(&mut t, 1, 3));
    assert!(ParentService::add_child(&mut t, 4, 1));
    assert!(ParentService::add_child(&mut t, 5, 6));
    assert!(t.contains(1, 2));
    assert!(ParentService::remove_child(&mut t, 1, 2));
    assert!(!ParentService::remove_child(&mut t, 1, 2));
    assert!(!t.contains(1, 2));
    assert_eq!(ParentService::remove_all(&mut t, 1), 2);
    assert!(t.contains(5, 6));
    assert_eq!(ParentService::remove_all(&mut t, 1), 0);
}

fn rev(revision_id: i64, site_id: i64, page_id: i64, revision_number: i32) -> PageRevision {
    PageRevision { revision_id, site_id, page_id, revision_number }
}

#[test]
fn revision_lookups() {
    let revs = vec![rev(10, 1, 100, 0), rev(11, 1, 100, 2), rev(12, 1, 100, 1), rev(13, 2, 100, 5)];
    assert_eq!(RevisionService::get_latest(&revs, 1, 100), Ok(rev(11, 1, 100, 2)));
    assert_eq!(RevisionService::get_latest(&revs, 1, 999), Err(AuthError::NotFound));
    assert_eq!(RevisionService::get_optional(&revs, 1, 100, 1), Some(rev(12, 1, 100, 1)));
    assert_eq!(RevisionService::get_optional(&revs, 1, 100, 5), None);
    assert!(RevisionService::has_revision(&revs, 2, 100, 5));
    assert!(!RevisionService::has_revision(&revs, 2, 100, 0));
    assert_eq!(RevisionService::get(&revs, 1, 100, 0), Ok(rev(10, 1, 100, 0)));
    assert_eq!(RevisionService::get(&revs, 3, 100, 0), Err(AuthError::NotFound));
    let out = CreateRevisionOutput { revision_id: 11, revision_number: 2 };
    assert_eq!(out.revision_number, 2);
}

#[test]
fn rate_limit_bypass() {
    let secret = "letmein".to_string();
    assert!(bypasses_rate_limit(&secret, &Some("letmein".to_string())));
    assert!(!bypasses_rate_limit(&secret, &Some("letmeout".to_string())));
    assert!(!bypasses_rate_limit(&secret, &None));
    let off = String::new();
    assert!(!bypasses_rate_limit(&off, &Some(String::new())));
    assert!(!bypasses_rate_limit(&off, &None));
}
