//! Validation of the caller's raw file list: each entry arrives as a short
//! list holding the source path and, optionally, the target path.  An entry
//! must have one or two elements and its first element must be present.
use vstd::prelude::*;

verus! {

/// Why a raw file list was rejected.
#[derive(Debug, PartialEq, Eq, Structural)]
pub enum FileListError {
    /// An entry had no elements at all.
    EmptyEntry,
    /// An entry had more than two elements.
    TooManyElements,
    /// An entry's first element, the source path, was missing.
    NullFirst,
}

/// The complaint one raw entry earns, or `None` for a well-formed entry.
pub open spec fn entry_error(e: Seq<Option<Seq<char>>>) -> Option<FileListError> {
    if e.len() == 0 {
        Some(FileListError::EmptyEntry)
    } else if e.len() > 2 {
        Some(FileListError::TooManyElements)
    } else if e[0] is None {
        Some(FileListError::NullFirst)
    } else {
        None
    }
}

/// The pair a well-formed raw entry denotes.
pub open spec fn entry_pair(e: Seq<Option<Seq<char>>>) -> (Seq<char>, Option<Seq<char>>)
    recommends
        entry_error(e) is None,
{
    (
        e[0]->0,
        if e.len() == 2 {
            e[1]
        } else {
            None
        },
    )
}

/// The validated file list, or the complaint of the first entry that is not
/// well-formed.
pub open spec fn files_from_nested_spec(entries: Seq<Seq<Option<Seq<char>>>>) -> Result<
    Seq<(Seq<char>, Option<Seq<char>>)>,
    FileListError,
>
    decreases entries.len(),
{
    if entries.len() == 0 {
        Ok(Seq::empty())
    } else {
        match entry_error(entries[0]) {
            Some(err) => Err(err),
            None => match files_from_nested_spec(entries.drop_first()) {
                Ok(rest) => Ok(seq![entry_pair(entries[0])] + rest),
                Err(err) => Err(err),
            },
        }
    }
}

/// Validates the raw file list into source/target pairs, or reports the
/// first ill-formed entry: empty, longer than two elements, or with a
/// missing source.
pub fn files_from_nested(entries: &Vec<Vec<Option<String>>>) -> (r: Result<
    Vec<(String, Option<String>)>,
    FileListError,
>)
    ensures
        match r {
            Ok(v) => files_from_nested_spec(entries.deep_view()) == Ok::<_, FileListError>(
                v.deep_view(),
            ),
            Err(e) => files_from_nested_spec(entries.deep_view()) == Err::<
                Seq<(Seq<char>, Option<Seq<char>>)>,
                _,
            >(e),
        },
{
    let ghost dv = entries.deep_view();
    let mut out: Vec<(String, Option<String>)> = Vec::new();
    let mut i: usize = 0;
    proof {
        assert(dv.subrange(0, dv.len() as int) =~= dv);
        assert(dv.len() == entries@.len());
    }
    while i < entries.len()
        invariant
            i <= entries@.len(),
            dv == entries.deep_view(),
            dv.len() == entries@.len(),
            forall|k: int|
                0 <= k < dv.len() ==> #[trigger] dv[k] == entries@[k].deep_view(),
            files_from_nested_spec(dv) == (match files_from_nested_spec(
                dv.subrange(i as int, dv.len() as int),
            ) {
                Ok(rest) => Ok::<_, FileListError>(out.deep_view() + rest),
                Err(err) => Err(err),
            }),
        decreases entries@.len() - i,
    {
        let entry = &entries[i];
        let ghost tail = dv.subrange(i as int, dv.len() as int);
        proof {
            assert(tail[0] == dv[i as int]);
            assert(tail.drop_first() =~= dv.subrange(i + 1, dv.len() as int));
        }
        if entry.len() == 0 {
            return Err(FileListError::EmptyEntry);
        }
        if entry.len() > 2 {
            return Err(FileListError::TooManyElements);
        }
        let source = match &entry[0] {
            Some(s) => s.clone(),
            None => {
                return Err(FileListError::NullFirst);
            },
        };
        let target: Option<String> = if entry.len() == 2 {
            match &entry[1] {
                Some(t) => Some(t.clone()),
                None => None,
            }
        } else {
            None
        };
        let ghost old_out = out.deep_view();
        out.push((source, target));
        proof {
            assert(out.deep_view() =~= old_out.push(entry_pair(dv[i as int])));
            assert(forall|rest: Seq<(Seq<char>, Option<Seq<char>>)>|
                old_out.push(entry_pair(dv[i as int])) + rest =~= old_out + (seq![
                    entry_pair(dv[i as int]),
                ] + rest));
        }
        i += 1;
    }
    proof {
        assert(dv.subrange(dv.len() as int, dv.len() as int) =~= Seq::<
            Seq<Option<Seq<char>>>,
        >::empty());
        assert(out.deep_view() + Seq::<(Seq<char>, Option<Seq<char>>)>::empty() =~= out.deep_view());
    }
    Ok(out)
}

} // verus!
