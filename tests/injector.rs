use std::collections::BTreeMap;

use libsql_replication::frame::{Frame, FrameHeader, FrameNo, PAGE_SIZE};
use libsql_replication::injector::{
    EngineResult, FlushStep, InjectAction, InjectError, Injector, COMMIT_NO_TXN_CODE,
    LIBSQL_INJECT_FATAL, LIBSQL_INJECT_OK, LIBSQL_INJECT_OK_TXN,
};

/// Page 1 holds the schema (byte 0: number of tables), page 2 the `test` table (byte 0:
/// number of rows).
const SCHEMA_PAGE: u32 = 1;
const TABLE_PAGE: u32 = 2;

/// An engine whose interceptor writes each batch to its log and applies the log to the
/// visible pages once a closing frame is written.
#[derive(Default)]
struct SimDb {
    pages: BTreeMap<u32, Vec<u8>>,
    log: Vec<Frame>,
    written: Vec<FrameNo>,
    fatal: bool,
}

impl SimDb {
    fn write(&mut self, frames: Vec<Frame>) -> EngineResult {
        if self.fatal {
            return EngineResult::SqliteError(LIBSQL_INJECT_FATAL);
        }
        let closes = frames.last().map(|f| f.closes_txn()).unwrap_or(false);
        for f in frames {
            self.written.push(f.header().frame_no);
            self.log.push(f);
        }
        if closes {
            for f in self.log.drain(..) {
                self.pages.insert(f.header().page_no, f.page().to_vec());
            }
            EngineResult::SqliteError(LIBSQL_INJECT_OK)
        } else {
            EngineResult::SqliteError(LIBSQL_INJECT_OK_TXN)
        }
    }

    fn table_exists(&self) -> bool {
        self.pages.get(&SCHEMA_PAGE).map(|p| p[0] > 0).unwrap_or(false)
    }

    fn count_rows(&self) -> Option<u8> {
        if self.table_exists() {
            Some(self.pages.get(&TABLE_PAGE).map(|p| p[0]).unwrap_or(0))
        } else {
            None
        }
    }
}

fn inject(injector: &mut Injector, db: &mut SimDb, frame: Frame) -> Result<Option<FrameNo>, InjectError> {
    match injector.inject_frame(frame) {
        InjectAction::Buffered => return Ok(None),
        InjectAction::BeginAndFlush | InjectAction::Flush => {}
    }
    let batch = match injector.take_batch() {
        Some(b) => b,
        None => return Ok(None),
    };
    let report = db.write(batch.frames);
    match injector.on_flush_report(report)? {
        FlushStep::HookNotCalled => panic!("replication hook was not called"),
        FlushStep::TxnOpen => Ok(None),
        FlushStep::Commit => injector.on_commit(EngineResult::Succeeded, batch.commit_frame_no),
    }
}

fn frame(frame_no: u64, page_no: u32, size_after: u32, byte: u8) -> Frame {
    let mut page = vec![0u8; PAGE_SIZE];
    page[0] = byte;
    Frame::from_parts(FrameHeader { frame_no, size_after, page_no }, page).unwrap()
}

/// A table `test` is created, then 5 rows are inserted, one transaction each.
fn wal_log() -> Vec<Frame> {
    let mut log = vec![frame(1, SCHEMA_PAGE, 0, 1), frame(2, TABLE_PAGE, 2, 0)];
    for row in 1..=5u8 {
        let n = log.len() as u64 + 1;
        log.push(frame(n, TABLE_PAGE, 2, row));
    }
    log
}

#[test]
fn test_simple_inject_frames() {
    let mut db = SimDb::default();
    let mut injector = Injector::new(10);
    for f in wal_log() {
        inject(&mut injector, &mut db, f).unwrap();
    }
    assert_eq!(db.count_rows(), Some(5));
}

#[test]
fn test_inject_frames_split_txn() {
    let mut db = SimDb::default();
    let mut injector = Injector::new(1);
    for f in wal_log() {
        inject(&mut injector, &mut db, f).unwrap();
    }
    assert_eq!(db.count_rows(), Some(5));
}

#[test]
fn test_inject_partial_txn_isolated() {
    let mut db = SimDb::default();
    let mut injector = Injector::new(10);
    let mut frames = wal_log().into_iter();

    assert!(inject(&mut injector, &mut db, frames.next().unwrap()).unwrap().is_none());
    assert!(db.count_rows().is_none());

    while inject(&mut injector, &mut db, frames.next().unwrap()).unwrap().is_none() {}

    assert!(db.count_rows().is_some());
}

fn one_txn(frame_nos: &[u64]) -> Vec<Frame> {
    let last = frame_nos.len() - 1;
    frame_nos
        .iter()
        .enumerate()
        .map(|(i, n)| frame(*n, i as u32 + 1, if i == last { 7 } else { 0 }, i as u8))
        .collect()
}

#[test]
fn one_txn_returns_max_only_on_closing_frame() {
    let nos = [11u64, 12, 13, 14, 15];
    for capacity in 1..=nos.len() {
        let mut db = SimDb::default();
        let mut injector = Injector::new(capacity);
        let results: Vec<_> = one_txn(&nos)
            .into_iter()
            .map(|f| inject(&mut injector, &mut db, f).unwrap())
            .collect();
        assert_eq!(results, vec![None, None, None, None, Some(15)]);
        assert!(!injector.is_txn());
        assert_eq!(injector.buffered_len(), 0);
    }
}

#[test]
fn descending_txn_reports_first_frame_no() {
    let mut db = SimDb::default();
    let mut injector = Injector::new(5);
    let results: Vec<_> = one_txn(&[9, 8, 7, 6, 5])
        .into_iter()
        .map(|f| inject(&mut injector, &mut db, f).unwrap())
        .collect();
    assert_eq!(results, vec![None, None, None, None, Some(9)]);
}

#[test]
fn commit_frame_no_is_max_of_first_and_last() {
    let mut injector = Injector::new(100);
    for f in one_txn(&[3, 10, 4]) {
        injector.inject_frame(f);
    }
    let batch = injector.take_batch().unwrap();
    assert_eq!(batch.commit_frame_no, 4);
    let nos: Vec<u64> = batch.frames.iter().map(|f| f.header().frame_no).collect();
    assert_eq!(nos, vec![3, 10, 4]);
    assert_eq!(injector.buffered_len(), 0);
    assert!(injector.take_batch().is_none());
}

#[test]
fn written_frames_do_not_depend_on_capacity() {
    let mut a = SimDb::default();
    let mut b = SimDb::default();
    let mut ia = Injector::new(1);
    let mut ib = Injector::new(10);
    for f in wal_log() {
        inject(&mut ia, &mut a, f.clone()).unwrap();
        inject(&mut ib, &mut b, f).unwrap();
    }
    assert_eq!(a.written, vec![1, 2, 3, 4, 5, 6, 7]);
    assert_eq!(a.written, b.written);
    assert_eq!(a.pages, b.pages);
    assert_eq!(a.count_rows(), Some(5));
}

#[test]
fn partial_txn_under_capacity_is_only_buffered() {
    let mut db = SimDb::default();
    let mut injector = Injector::new(10);
    let frames = one_txn(&[1, 2, 3, 4]);
    for f in frames.into_iter().take(3) {
        assert_eq!(inject(&mut injector, &mut db, f).unwrap(), None);
    }
    assert!(db.written.is_empty());
    assert_eq!(injector.buffered_len(), 3);
    assert!(!injector.is_txn());
}

#[test]
fn partial_txn_over_capacity_stays_uncommitted() {
    let mut db = SimDb::default();
    let mut injector = Injector::new(2);
    let mut frames = wal_log().into_iter();
    assert_eq!(inject(&mut injector, &mut db, frames.next().unwrap()).unwrap(), None);
    assert_eq!(injector.inject_frame(frame(2, TABLE_PAGE, 0, 0)), InjectAction::BeginAndFlush);
    let batch = injector.take_batch().unwrap();
    assert_eq!(injector.on_flush_report(db.write(batch.frames)), Ok(FlushStep::TxnOpen));
    assert!(injector.is_txn());
    assert_eq!(db.written, vec![1, 2]);
    assert!(db.count_rows().is_none());
}

#[test]
fn clear_buffer_then_reinject_matches_single_injection() {
    let mut fresh_db = SimDb::default();
    let mut fresh = Injector::new(10);
    let fresh_results: Vec<_> =
        wal_log().into_iter().map(|f| inject(&mut fresh, &mut fresh_db, f).unwrap()).collect();

    let mut db = SimDb::default();
    let mut injector = Injector::new(10);
    assert_eq!(inject(&mut injector, &mut db, wal_log()[0].clone()).unwrap(), None);
    injector.clear_buffer();
    assert_eq!(injector.buffered_len(), 0);
    let results: Vec<_> =
        wal_log().into_iter().map(|f| inject(&mut injector, &mut db, f).unwrap()).collect();

    assert_eq!(results, fresh_results);
    assert_eq!(db.written, fresh_db.written);
    assert_eq!(db.pages, fresh_db.pages);
    assert_eq!(db.count_rows(), Some(5));
}

#[test]
fn fatal_report_is_fatal_error() {
    let mut db = SimDb { fatal: true, ..SimDb::default() };
    let mut injector = Injector::new(10);
    let r = inject(&mut injector, &mut db, frame(1, 1, 1, 0));
    assert_eq!(r, Err(InjectError::FatalInjectError));
    assert!(!injector.is_txn());
}

#[test]
fn unknown_or_missing_code_is_fatal_error() {
    let mut injector = Injector::new(1);
    assert_eq!(injector.on_flush_report(EngineResult::SqliteError(1)), Err(InjectError::FatalInjectError));
    assert_eq!(injector.on_flush_report(EngineResult::OtherError), Err(InjectError::FatalInjectError));
    assert!(!injector.is_txn());
}

#[test]
fn succeeded_write_means_hook_not_called() {
    let mut injector = Injector::new(1);
    assert_eq!(injector.on_flush_report(EngineResult::Succeeded), Ok(FlushStep::HookNotCalled));
    assert_eq!(injector.on_flush_report(EngineResult::SqliteError(LIBSQL_INJECT_OK)), Ok(FlushStep::Commit));
}

#[test]
fn commit_failures() {
    let mut injector = Injector::new(1);
    assert_eq!(injector.on_flush_report(EngineResult::SqliteError(LIBSQL_INJECT_OK_TXN)), Ok(FlushStep::TxnOpen));
    assert!(injector.is_txn());
    assert_eq!(injector.on_commit(EngineResult::SqliteError(5), 3), Err(InjectError::FatalInjectError));
    assert!(injector.is_txn());
    assert_eq!(injector.on_commit(EngineResult::OtherError, 3), Err(InjectError::FatalInjectError));
    assert_eq!(injector.on_commit(EngineResult::SqliteError(COMMIT_NO_TXN_CODE), 3), Ok(Some(3)));
    assert!(!injector.is_txn());
}

#[test]
fn inject_frame_actions() {
    let mut injector = Injector::new(3);
    assert_eq!(injector.capacity(), 3);
    assert_eq!(injector.inject_frame(frame(1, 1, 0, 0)), InjectAction::Buffered);
    assert_eq!(injector.inject_frame(frame(2, 1, 0, 0)), InjectAction::Buffered);
    assert_eq!(injector.inject_frame(frame(3, 1, 0, 0)), InjectAction::BeginAndFlush);
    assert_eq!(injector.buffered_len(), 3);
    injector.take_batch();
    injector.on_flush_report(EngineResult::SqliteError(LIBSQL_INJECT_OK_TXN)).unwrap();
    assert_eq!(injector.inject_frame(frame(4, 1, 9, 0)), InjectAction::Flush);
}
