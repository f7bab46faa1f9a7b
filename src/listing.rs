//! Listing one directory of the store.
use vstd::prelude::*;
use vstd::string::StringSliceAdditionalSpecFns;
use vstd::utf8::{encode_utf8, is_ascii_chars, is_ascii_chars_encode_utf8, valid_utf8};
use rusqlite::{Connection, Error};
use crate::path::{child_component, child_name, glob_pattern, is_direct_child, normalize, normalize_path};
use crate::sink::DirSink;
use crate::store::{first_text, next_row, prepare, query};

verus! {

/// The byte `.`.
pub const DOT: u8 = 0x2e;

/// The query of one listing: every key that matches the pattern `?1`, but for
/// the key `?2` of the directory itself.
pub const LIST_QUERY: &'static str = "select key from meta_data where key glob ?1 and key != ?2;";

/// Why a listing failed.
#[derive(Debug)]
pub enum ReadDirError {
    /// The query could not be prepared or bound.
    EAcess { source: Error },
    /// Stepping through the matched rows failed.
    EBusy,
    /// The path handed in was not valid UTF-8.
    InvalidEncoding,
}

/// The two entries that open every listing: `.` and `..`.
pub open spec fn dot_entries() -> Seq<Seq<u8>> {
    seq![seq![DOT], seq![DOT, DOT]]
}

/// The names that the keys `keys`, in the order the store returned them,
/// contribute to the listing of the normalized directory `dir`: the last
/// component of each direct child.
pub open spec fn children(dir: Seq<u8>, keys: Seq<Seq<u8>>) -> Seq<Seq<u8>>
    decreases keys.len(),
{
    if keys.len() == 0 {
        seq![]
    } else {
        let earlier = children(dir, keys.drop_last());
        if is_direct_child(dir, keys.last()) {
            earlier.push(child_component(dir, keys.last()))
        } else {
            earlier
        }
    }
}

/// The listing of the normalized directory `dir` when the store returned
/// `keys`: `.`, `..`, then the children.
pub open spec fn dir_listing(dir: Seq<u8>, keys: Seq<Seq<u8>>) -> Seq<Seq<u8>> {
    dot_entries() + children(dir, keys)
}

/// The texts `.` and `..` as bytes.
proof fn lemma_dot_bytes()
    ensures
        ".".spec_bytes() == seq![DOT],
        "..".spec_bytes() == seq![DOT, DOT],
{
    reveal_strlit(".");
    reveal_strlit("..");
    let one = "."@;
    let two = ".."@;
    assert(is_ascii_chars(one));
    assert(is_ascii_chars(two));
    is_ascii_chars_encode_utf8(one);
    is_ascii_chars_encode_utf8(two);
    assert(".".spec_bytes() =~= seq![DOT]);
    assert("..".spec_bytes() =~= seq![DOT, DOT]);
}

/// The children contributed by two runs of keys, one after the other, are
/// those of the first run followed by those of the second.
pub proof fn lemma_children_append(dir: Seq<u8>, a: Seq<Seq<u8>>, b: Seq<Seq<u8>>)
    ensures
        children(dir, a + b) == children(dir, a) + children(dir, b),
    decreases b.len(),
{
    if b.len() == 0 {
        assert(a + b =~= a);
        assert(children(dir, a) + children(dir, b) =~= children(dir, a));
    } else {
        assert((a + b).drop_last() =~= a + b.drop_last());
        assert((a + b).last() == b.last());
        lemma_children_append(dir, a, b.drop_last());
        assert(children(dir, a + b) =~= children(dir, a) + children(dir, b));
    }
}

/// How the store's answer to a listing's query ended.
pub enum QueryEnd {
    /// The query could not be prepared or bound.
    Refused,
    /// Reading a row failed.
    RowFailed,
    /// Every row was read.
    Exhausted,
}

/// `r` is the result that reports a query that ended as `end`: `EAcess`
/// for a refused query, `EBusy` for a failed row, `Ok` when every row was
/// read.
pub open spec fn reports(r: Result<(), ReadDirError>, end: QueryEnd) -> bool {
    match end {
        QueryEnd::Refused => r matches Err(ReadDirError::EAcess { .. }),
        QueryEnd::RowFailed => r matches Err(ReadDirError::EBusy),
        QueryEnd::Exhausted => r is Ok,
    }
}

/// The names a listing of the normalized directory `dir` sends when the
/// store returned the keys `keys` and its answer ended as `end`: `.` and
/// `..` alone for a refused query, else `dir_listing(dir, keys)`.
pub open spec fn names_sent(dir: Seq<u8>, keys: Seq<Seq<u8>>, end: QueryEnd) -> Seq<Seq<u8>> {
    match end {
        QueryEnd::Refused => dot_entries(),
        _ => dir_listing(dir, keys),
    }
}

/// What a listing of `path` does, for the store's answer: the store returned
/// the keys `keys` and its answer ended as `end`; the sink went from `before`
/// to `before` followed by `names_sent`, and the result `r` reports `end`.
/// The answer itself depends on what the database holds.
pub open spec fn listed_from_store(
    path: Seq<u8>,
    before: Seq<Seq<u8>>,
    after: Seq<Seq<u8>>,
    r: Result<(), ReadDirError>,
) -> bool {
    exists|keys: Seq<Seq<u8>>, end: QueryEnd|
        {
            &&& after == before + #[trigger] names_sent(normalize(path), keys, end)
            &&& reports(r, end)
        }
}

/// The result of preparing or binding the query: a refusal becomes `EAcess`
/// with its cause, success goes on with the value.
pub fn on_query<T>(outcome: Result<T, Error>) -> (r: Result<T, ReadDirError>)
    ensures
        outcome is Ok <==> r is Ok,
        outcome is Ok ==> r == Ok::<T, ReadDirError>(outcome->Ok_0),
        outcome is Err ==> r == Err::<T, ReadDirError>(
            ReadDirError::EAcess { source: outcome->Err_0 },
        ),
{
    match outcome {
        Ok(value) => Ok(value),
        Err(e) => Err(ReadDirError::EAcess { source: e }),
    }
}

/// One step of a listing of the normalized directory `dir`, for what reading
/// the next row gave: a key is offered to the sink (sent when it names a
/// direct child) and the listing goes on (`None`); the end of the rows ends
/// it with `Ok`; a failed row ends it with `EBusy`, whatever the cause.
pub fn on_row<S: DirSink>(dir: &str, row: Result<Option<String>, ()>, sink: &mut S) -> (r: Option<
    Result<(), ReadDirError>,
>)
    ensures
        row is Err ==> r matches Some(Err(ReadDirError::EBusy)),
        row is Err ==> final(sink).entries() == old(sink).entries(),
        row matches Ok(None) ==> r matches Some(Ok(())),
        row matches Ok(None) ==> final(sink).entries() == old(sink).entries(),
        row matches Ok(Some(key)) ==> r is None,
        row matches Ok(Some(key)) ==> final(sink).entries() == old(sink).entries() + children(
            dir.spec_bytes(),
            seq![encode_utf8(key@)],
        ),
{
    match row {
        Err(()) => Some(Err(ReadDirError::EBusy)),
        Ok(None) => Some(Ok(())),
        Ok(Some(key)) => {
            let key_text = key.as_str();
            let ghost k = key_text.spec_bytes();
            proof {
                let one = seq![k];
                assert(one.drop_last() =~= Seq::<Seq<u8>>::empty());
                assert(children(dir.spec_bytes(), Seq::<Seq<u8>>::empty()) == Seq::<Seq<u8>>::empty());
                assert(one.last() == k);
            }
            match child_name(dir, key_text) {
                Some(name) => {
                    sink.add_entry(name);
                    assert(sink.entries() =~= old(sink).entries() + children(dir.spec_bytes(), seq![k]));
                },
                None => {
                    assert(sink.entries() =~= old(sink).entries() + children(dir.spec_bytes(), seq![k]));
                },
            }
            None
        },
    }
}

/// Lists the directory `path` into `sink`.
///
/// The path is normalized; `.` and `..` go to the sink first, whatever
/// follows. Every key below the directory is then read from the store, and
/// the last component of each direct child goes to the sink in the order the
/// store returns them. A query that cannot be prepared gives `EAcess`; a
/// failure while reading the rows gives `EBusy`, and the names sent before it
/// stay sent; when every row was read the result is `Ok`. The connection is
/// only read, and stays open.
///
/// A store that returned more than `u64::MAX` rows to one listing would be
/// reported busy, as any other failure while reading.
pub fn list<S: DirSink>(connection: &Connection, path: &str, sink: &mut S) -> (r: Result<
    (),
    ReadDirError,
>)
    ensures
        listed_from_store(path.spec_bytes(), old(sink).entries(), final(sink).entries(), r),
        r matches Err(ReadDirError::EAcess { .. }) ==> final(sink).entries() == old(sink).entries()
            + dot_entries(),
        !(r matches Err(ReadDirError::InvalidEncoding)),
{
    let ghost before = sink.entries();
    let dir = normalize_path(path);
    let glob = glob_pattern(dir);
    sink.add_entry(".");
    sink.add_entry("..");
    proof {
        lemma_dot_bytes();
        assert(sink.entries() =~= before + dir_listing(dir.spec_bytes(), seq![]));
        assert(sink.entries() == before + names_sent(
            normalize(path.spec_bytes()),
            seq![],
            QueryEnd::Refused,
        ));
    }
    let mut stmt = match on_query(prepare(connection, LIST_QUERY)) {
        Ok(stmt) => stmt,
        Err(e) => return Err(e),
    };
    let mut rows = match on_query(query(&mut stmt, glob.as_str(), dir)) {
        Ok(rows) => rows,
        Err(e) => return Err(e),
    };
    let ghost mut keys: Seq<Seq<u8>> = seq![];
    let mut count: u64 = 0;
    loop
        invariant
            dir.spec_bytes() == normalize(path.spec_bytes()),
            before == old(sink).entries(),
            sink.entries() == before + dir_listing(dir.spec_bytes(), keys),
        decreases u64::MAX - count,
    {
        if count == u64::MAX {
            assert(sink.entries() == before + names_sent(
                dir.spec_bytes(),
                keys,
                QueryEnd::RowFailed,
            ));
            return Err(ReadDirError::EBusy);
        }
        let row: Result<Option<String>, ()> = match next_row(&mut rows) {
            Ok(Some(found)) => match first_text(found) {
                Ok(key) => Ok(Some(key)),
                Err(_) => Err(()),
            },
            Ok(None) => Ok(None),
            Err(_) => Err(()),
        };
        let ghost read = row;
        match on_row(dir, row, sink) {
            Some(result) => {
                proof {
                    let end = if read is Err {
                        QueryEnd::RowFailed
                    } else {
                        QueryEnd::Exhausted
                    };
                    assert(sink.entries() == before + names_sent(dir.spec_bytes(), keys, end));
                }
                return result;
            },
            None => {},
        }
        proof {
            let k = encode_utf8(read->Ok_0->Some_0@);
            lemma_children_append(dir.spec_bytes(), keys, seq![k]);
            assert(keys + seq![k] =~= keys.push(k));
            keys = keys.push(k);
            assert(sink.entries() =~= before + dir_listing(dir.spec_bytes(), keys));
        }
        count = count + 1;
    }
}

/// Lists the directory whose path arrives as raw bytes. A path that is not
/// valid UTF-8 gives `InvalidEncoding` before the store is queried or the
/// sink called; any other path is listed as [`list`] does.
pub fn list_bytes<S: DirSink>(connection: &Connection, path: &[u8], sink: &mut S) -> (r: Result<
    (),
    ReadDirError,
>)
    ensures
        valid_utf8(path@) ==> listed_from_store(
            path@,
            old(sink).entries(),
            final(sink).entries(),
            r,
        ),
        valid_utf8(path@) ==> (r matches Err(ReadDirError::EAcess { .. }) ==> final(sink).entries()
            == old(sink).entries() + dot_entries()),
        valid_utf8(path@) ==> !(r matches Err(ReadDirError::InvalidEncoding)),
        !valid_utf8(path@) ==> r matches Err(ReadDirError::InvalidEncoding),
        !valid_utf8(path@) ==> final(sink).entries() == old(sink).entries(),
{
    match utf8_text(path) {
        Some(text) => list(connection, text, sink),
        None => Err(ReadDirError::InvalidEncoding),
    }
}

/// Relies on `std::str::from_utf8`: `Ok` exactly when `b` is valid UTF-8,
/// and then a text with the same bytes.
#[verifier::external_body]
fn utf8_text(b: &[u8]) -> (r: Option<&str>)
    ensures
        r is Some <==> valid_utf8(b@),
        r is Some ==> r->Some_0.spec_bytes() == b@,
{
    std::str::from_utf8(b).ok()
}

} // verus!
