use vstd::prelude::*;

use crate::error::{text, FlameError};
use crate::strs::{spec_trim, substring, trim};

verus! {

/// The line that separates the documents of a file.
pub open spec fn doc_separator() -> Seq<char> {
    "\n---\n"@
}

/// The first place at or after `k` where `sep` occurs in `s`.
pub open spec fn first_at(s: Seq<char>, sep: Seq<char>, k: int) -> Option<int>
    decreases s.len() - k,
{
    if k < 0 || k >= s.len() || k + sep.len() > s.len() {
        None
    } else if s.subrange(k, k + sep.len()) == sep {
        Some(k)
    } else {
        first_at(s, sep, k + 1)
    }
}

proof fn lemma_first_at(s: Seq<char>, sep: Seq<char>, k: int)
    requires
        0 <= k,
    ensures
        first_at(s, sep, k) matches Some(i) ==> k <= i && i + sep.len() <= s.len(),
    decreases s.len() - k,
{
    if k < s.len() && k + sep.len() <= s.len() && s.subrange(k, k + sep.len()) != sep {
        lemma_first_at(s, sep, k + 1);
    }
}

/// The pieces of `s` from `k` on between occurrences of `sep`, as
/// `str::split` cuts them.
pub open spec fn split_from(s: Seq<char>, sep: Seq<char>, k: int) -> Seq<Seq<char>>
    recommends
        sep.len() > 0,
    decreases s.len() - k,
{
    if k < 0 || k > s.len() || sep.len() == 0 {
        seq![]
    } else {
        match first_at(s, sep, k) {
            Some(i) => if k <= i && i + sep.len() <= s.len() {
                seq![s.subrange(k, i)] + split_from(s, sep, i + sep.len())
            } else {
                seq![]
            },
            None => seq![s.subrange(k, s.len() as int)],
        }
    }
}

/// The pieces trimmed, the empty ones left out.
pub open spec fn docs(ps: Seq<Seq<char>>) -> Seq<Seq<char>>
    decreases ps.len(),
{
    if ps.len() == 0 {
        seq![]
    } else {
        let t = spec_trim(ps[0]);
        if t.len() > 0 {
            seq![t] + docs(ps.drop_first())
        } else {
            docs(ps.drop_first())
        }
    }
}

/// The documents of a multi-document YAML text: the pieces between the
/// separator lines, trimmed, the empty ones left out.
pub open spec fn spec_documents(s: Seq<char>) -> Seq<Seq<char>> {
    docs(split_from(s, doc_separator(), 0))
}

fn find_from(s: &str, sep: &str, k: usize) -> (r: Option<usize>)
    requires
        k <= s@.len(),
        sep@.len() > 0,
    ensures
        r matches Some(i) ==> first_at(s@, sep@, k as int) == Some(i as int),
        r is None ==> first_at(s@, sep@, k as int) is None,
        r matches Some(i) ==> k <= i && i + sep@.len() <= s@.len(),
{
    proof {
        lemma_first_at(s@, sep@, k as int);
    }
    let n = s.unicode_len();
    let m = sep.unicode_len();
    if m > n {
        return None;
    }
    let mut i = k;
    while i <= n - m
        invariant
            n == s@.len(),
            m == sep@.len(),
            0 < m <= n,
            k <= i,
            first_at(s@, sep@, k as int) == first_at(s@, sep@, i as int),
        decreases n - i,
    {
        let mut j: usize = 0;
        let mut same = true;
        while j < m
            invariant
                i + m <= n,
                n == s@.len(),
                m == sep@.len(),
                j <= m,
                same <==> forall|t: int| 0 <= t < j ==> s@[i + t] == sep@[t],
            decreases m - j,
        {
            if s.get_char(i + j) != sep.get_char(j) {
                same = false;
            }
            j = j + 1;
        }
        if same {
            assert(s@.subrange(i as int, i + m) =~= sep@);
            return Some(i);
        } else {
            proof {
                let t = choose|t: int| 0 <= t < m && s@[i + t] != sep@[t];
                assert(s@.subrange(i as int, i + m)[t] != sep@[t]);
            }
        }
        i = i + 1;
    }
    None
}

/// The documents of a text holding several YAML documents separated by
/// `---` lines, each trimmed, the empty ones left out.
pub fn split_documents(contents: &str) -> (r: Vec<String>)
    ensures
        r@.map_values(|d: String| d@) == spec_documents(contents@),
{
    let sep = "\n---\n";
    proof {
        reveal_strlit("\n---\n");
    }
    assert(sep@.len() == 5);
    let n = contents.unicode_len();
    let mut out: Vec<String> = Vec::new();
    let mut k: usize = 0;
    loop
        invariant
            n == contents@.len(),
            k <= n,
            sep@ == doc_separator(),
            sep@.len() == 5,
            spec_documents(contents@) == out@.map_values(|d: String| d@) + docs(
                split_from(contents@, sep@, k as int),
            ),
        decreases n - k,
    {
        let ghost rest = split_from(contents@, sep@, k as int);
        let found = find_from(contents, sep, k);
        let end = match found {
            Some(i) => i,
            None => n,
        };
        let piece = substring(contents, k, end);
        let t = trim(piece.as_str());
        let ghost before = out@.map_values(|d: String| d@);
        proof {
            assert(rest[0] == piece@);
            assert(rest.drop_first() =~= match found {
                Some(i) => split_from(contents@, sep@, i + sep@.len()),
                None => Seq::<Seq<char>>::empty(),
            });
        }
        if t.unicode_len() > 0 {
            out.push(t);
            proof {
                assert(out@.map_values(|d: String| d@) =~= before.push(spec_trim(piece@)));
                assert(before.push(spec_trim(piece@)) + docs(rest.drop_first()) =~= before + (seq![
                    spec_trim(piece@),
                ] + docs(rest.drop_first())));
            }
        } else {
            assert(out@.map_values(|d: String| d@) =~= before);
        }
        match found {
            Some(i) => {
                k = i + 5;
            },
            None => {
                proof {
                    assert(docs(Seq::<Seq<char>>::empty()) =~= Seq::<Seq<char>>::empty());
                    assert(out@.map_values(|d: String| d@) + Seq::<Seq<char>>::empty() =~= out@.map_values(|d: String| d@));
                }
                return out;
            },
        }
    }
}

/// Every document is non-empty and is a piece of the text, trimmed.
pub proof fn law_documents_are_trimmed_pieces(s: Seq<char>)
    ensures
        forall|i: int|
            0 <= i < spec_documents(s).len() ==> #[trigger] spec_documents(s)[i].len() > 0
                && exists|j: int|
                0 <= j < split_from(s, doc_separator(), 0).len() && spec_documents(s)[i]
                    == spec_trim(split_from(s, doc_separator(), 0)[j]),
{
    lemma_docs_pieces(split_from(s, doc_separator(), 0));
}

proof fn lemma_docs_pieces(ps: Seq<Seq<char>>)
    ensures
        forall|i: int|
            0 <= i < docs(ps).len() ==> #[trigger] docs(ps)[i].len() > 0 && exists|j: int|
                0 <= j < ps.len() && docs(ps)[i] == spec_trim(ps[j]),
    decreases ps.len(),
{
    if ps.len() > 0 {
        let rest = ps.drop_first();
        lemma_docs_pieces(rest);
        let t = spec_trim(ps[0]);
        assert forall|i: int| 0 <= i < docs(ps).len() implies #[trigger] docs(ps)[i].len() > 0
            && exists|j: int| 0 <= j < ps.len() && docs(ps)[i] == spec_trim(ps[j]) by {
            if t.len() > 0 {
                if i == 0 {
                    assert(docs(ps)[0] == spec_trim(ps[0]));
                } else {
                    assert(docs(ps)[i] == docs(rest)[i - 1]);
                    let j = choose|j: int| 0 <= j < rest.len() && docs(rest)[i - 1] == spec_trim(rest[j]);
                    assert(rest[j] == ps[j + 1]);
                }
            } else {
                assert(docs(ps)[i] == docs(rest)[i]);
                let j = choose|j: int| 0 <= j < rest.len() && docs(rest)[i] == spec_trim(rest[j]);
                assert(rest[j] == ps[j + 1]);
            }
        }
    }
}

/// The message when no application file is named.
pub open spec fn no_application_message() -> Seq<char> {
    "application is required"@
}

/// The application file an update names; `InvalidConfig` when none is named.
pub fn required_application(application: &Option<String>) -> (r: Result<&String, FlameError>)
    ensures
        match application {
            Some(a) => r matches Ok(x) && x == a,
            None => r matches Err(FlameError::InvalidConfig(m)) && m@ == no_application_message(),
        },
{
    match application {
        Some(a) => Ok(a),
        None => {
            proof {
                reveal_strlit("application is required");
            }
            Err(FlameError::InvalidConfig(text("application is required")))
        },
    }
}

} // verus!
