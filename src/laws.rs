//! Properties of every listing, proved over the model of [`crate::listing`]:
//! a listing is determined by the normalized path and the store's answer,
//! that is the keys it returned and how its answer ended.
use vstd::prelude::*;
use crate::listing::{
    children, dir_listing, dot_entries, lemma_children_append, names_sent, reports, QueryEnd,
    ReadDirError,
};
use crate::path::{
    child_component, child_key, is_direct_child, normalize, trim_leading, trim_trailing, SEPARATOR,
};
use crate::status::result_status;

verus! {

/// A key that is no direct child of the directory leaves the names sent as
/// they were, wherever the store returns it.
proof fn lemma_non_child_not_listed(
    dir: Seq<u8>,
    a: Seq<Seq<u8>>,
    key: Seq<u8>,
    b: Seq<Seq<u8>>,
    end: QueryEnd,
)
    requires
        !is_direct_child(dir, key),
    ensures
        names_sent(dir, a + seq![key] + b, end) == names_sent(dir, a + b, end),
{
    lemma_children_append(dir, a + seq![key], b);
    lemma_children_append(dir, a, seq![key]);
    lemma_children_append(dir, a, b);
    assert(seq![key].drop_last() =~= Seq::<Seq<u8>>::empty());
    assert(children(dir, Seq::<Seq<u8>>::empty()) == Seq::<Seq<u8>>::empty());
    assert(seq![key].last() == key);
    assert(children(dir, seq![key]) =~= Seq::<Seq<u8>>::empty());
    assert(children(dir, a) + children(dir, seq![key]) =~= children(dir, a));
}

/// The result reports how the store's answer ended: `Ok` (status 0) when
/// every row was read, `EBusy` (status 16) when a row failed, `EAcess`
/// (status 13) when the query was refused.
pub proof fn law_result_follows_answer(r: Result<(), ReadDirError>, end: QueryEnd)
    requires
        reports(r, end),
    ensures
        end is Exhausted ==> r is Ok && result_status(r) == 0,
        end is RowFailed ==> (r matches Err(ReadDirError::EBusy)) && result_status(r) == 16,
        end is Refused ==> (r matches Err(ReadDirError::EAcess { .. })) && result_status(r) == 13,
{
}

/// A failed row keeps what was sent before it: `.`, `..`, then the names of
/// the direct children among the rows read.
pub proof fn law_row_failure_keeps_names(path: Seq<u8>, keys: Seq<Seq<u8>>)
    ensures
        names_sent(normalize(path), keys, QueryEnd::RowFailed) == dot_entries() + children(
            normalize(path),
            keys,
        ),
{
}

/// A refused query sends `.` and `..` alone.
pub proof fn law_refused_query_sends_dots(path: Seq<u8>, keys: Seq<Seq<u8>>)
    ensures
        names_sent(normalize(path), keys, QueryEnd::Refused) == dot_entries(),
{
}

/// When none of the keys that the store returns is a direct child of the
/// directory, the listing sends exactly `.` and `..`, however the answer
/// ended.
pub proof fn law_empty_directory(path: Seq<u8>, keys: Seq<Seq<u8>>, end: QueryEnd)
    requires
        forall|i: int| 0 <= i < keys.len() ==> !is_direct_child(normalize(path), #[trigger] keys[i]),
    ensures
        names_sent(normalize(path), keys, end) == dot_entries(),
    decreases keys.len(),
{
    let dir = normalize(path);
    if keys.len() == 0 {
        assert(dir_listing(dir, keys) =~= dot_entries());
    } else {
        assert(keys.last() == keys[keys.len() - 1]);
        assert forall|i: int| 0 <= i < keys.drop_last().len() implies !is_direct_child(
            dir,
            #[trigger] keys.drop_last()[i],
        ) by {
            assert(keys.drop_last()[i] == keys[i]);
        }
        law_empty_directory(path, keys.drop_last(), end);
    }
}

/// Each name listed is the key of a direct child with the directory and one
/// separator taken off its front: a non-empty name without a separator.
pub proof fn law_names_are_last_components(path: Seq<u8>, keys: Seq<Seq<u8>>)
    ensures
        forall|j: int|
            0 <= j < children(normalize(path), keys).len() ==> {
                let name = #[trigger] children(normalize(path), keys)[j];
                &&& name.len() > 0
                &&& !name.contains(SEPARATOR)
                &&& exists|i: int|
                    0 <= i < keys.len() && keys[i] == child_key(normalize(path), name)
            },
    decreases keys.len(),
{
    let dir = normalize(path);
    if keys.len() > 0 {
        let earlier = keys.drop_last();
        law_names_are_last_components(path, earlier);
        let key = keys.last();
        let n = children(dir, keys).len();
        assert forall|j: int| 0 <= j < n implies {
            let name = #[trigger] children(dir, keys)[j];
            &&& name.len() > 0
            &&& !name.contains(SEPARATOR)
            &&& exists|i: int| 0 <= i < keys.len() && keys[i] == child_key(dir, name)
        } by {
            let name = children(dir, keys)[j];
            if j < children(dir, earlier).len() {
                assert(name == children(dir, earlier)[j]);
                let i = choose|i: int| 0 <= i < earlier.len() && earlier[i] == child_key(dir, name);
                assert(keys[i] == earlier[i]);
            } else {
                assert(is_direct_child(dir, key));
                assert(name == child_component(dir, key));
                assert(key =~= child_key(dir, name));
                assert(keys[keys.len() - 1] == key);
            }
        }
    }
}

/// A key two or more levels below the directory is never listed.
pub proof fn law_deeper_keys_not_listed(
    path: Seq<u8>,
    a: Seq<Seq<u8>>,
    rest: Seq<u8>,
    b: Seq<Seq<u8>>,
    end: QueryEnd,
)
    requires
        rest.contains(SEPARATOR),
    ensures
        names_sent(normalize(path), a + seq![child_key(normalize(path), rest)] + b, end)
            == names_sent(normalize(path), a + b, end),
{
    let dir = normalize(path);
    let key = child_key(dir, rest);
    if dir.len() > 0 {
        assert(child_component(dir, key) =~= rest);
    }
    lemma_non_child_not_listed(dir, a, key, b, end);
}

/// The directory's own key is never listed among its entries.
pub proof fn law_own_key_not_listed(
    path: Seq<u8>,
    a: Seq<Seq<u8>>,
    b: Seq<Seq<u8>>,
    end: QueryEnd,
)
    ensures
        names_sent(normalize(path), a + seq![normalize(path)] + b, end) == names_sent(
            normalize(path),
            a + b,
            end,
        ),
{
    lemma_non_child_not_listed(normalize(path), a, normalize(path), b, end);
}

/// Trimming the leading separators of a text with one more separator at its
/// end.
proof fn lemma_trim_leading_push(s: Seq<u8>)
    ensures
        trim_leading(s.push(SEPARATOR)) == if trim_leading(s).len() == 0 {
            Seq::<u8>::empty()
        } else {
            trim_leading(s).push(SEPARATOR)
        },
    decreases s.len(),
{
    if s.len() == 0 {
        let one = s.push(SEPARATOR);
        assert(one.drop_first() =~= Seq::<u8>::empty());
        assert(trim_leading(Seq::<u8>::empty()) == Seq::<u8>::empty());
        assert(trim_leading(s) == s);
    } else if s[0] == SEPARATOR {
        assert(s.push(SEPARATOR).drop_first() =~= s.drop_first().push(SEPARATOR));
        lemma_trim_leading_push(s.drop_first());
    } else {
        assert(s.push(SEPARATOR)[0] == s[0]);
    }
}

/// A separator more at the front or at the end of a path changes neither its
/// normalized form nor its listing: `/a/`, `a/`, `/a` and `a` list alike.
pub proof fn law_outer_separators_ignored(path: Seq<u8>, keys: Seq<Seq<u8>>, end: QueryEnd)
    ensures
        normalize(seq![SEPARATOR] + path) == normalize(path),
        normalize(path.push(SEPARATOR)) == normalize(path),
        names_sent(normalize(seq![SEPARATOR] + path), keys, end) == names_sent(
            normalize(path),
            keys,
            end,
        ),
        names_sent(normalize(path.push(SEPARATOR)), keys, end) == names_sent(
            normalize(path),
            keys,
            end,
        ),
{
    assert((seq![SEPARATOR] + path).drop_first() =~= path);
    lemma_trim_leading_push(path);
    let t = trim_leading(path);
    if t.len() > 0 {
        assert(t.push(SEPARATOR).drop_last() =~= t);
    }
}

/// Two listings of paths with the same normalized form, given the same answer
/// of the store, send the same names and report the same status: listing
/// twice an unchanged store gives the same result.
pub proof fn law_same_answer_same_listing(
    p1: Seq<u8>,
    p2: Seq<u8>,
    keys: Seq<Seq<u8>>,
    end: QueryEnd,
    r1: Result<(), ReadDirError>,
    r2: Result<(), ReadDirError>,
)
    requires
        normalize(p1) == normalize(p2),
        reports(r1, end),
        reports(r2, end),
    ensures
        names_sent(normalize(p1), keys, end) == names_sent(normalize(p2), keys, end),
        result_status(r1) == result_status(r2),
        r1 is Ok <==> r2 is Ok,
        (r1 matches Err(ReadDirError::EBusy)) <==> (r2 matches Err(ReadDirError::EBusy)),
{
}

} // verus!
