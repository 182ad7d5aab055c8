//! Which webview window a forwarded request goes to.

use vstd::prelude::*;
use crate::error::Error;
use crate::order::{lemma_sort_texts_sorted_permutation, lemma_sorted_unique, sort_strings, sort_texts};
use crate::text::{concat, join, join_seq, same_text, texts};

verus! {

/// The label preferred when several webview windows exist.
pub const MAIN_LABEL: &'static str = "main";

/// The default target among `labels` when the request names none: the only
/// label, else `main` when present; otherwise the reason (the text of an
/// `Error::Request`), which lists the labels in ascending order.
pub open spec fn default_label_choice(labels: Seq<Seq<char>>) -> Result<Seq<char>, Seq<char>> {
    let sorted = sort_texts(labels);
    if labels.len() == 1 {
        Ok(labels[0])
    } else if labels.contains("main"@) {
        Ok("main"@)
    } else if labels.len() == 0 {
        Err("no webview exists"@)
    } else {
        Err("multiple webviews exist ("@ + join_seq(sorted, ", "@) + "); set `webview` explicitly"@)
    }
}

/// Whether `r` is the outcome `choice` describes, a failure being an `Error::Request`.
pub open spec fn label_outcome(r: Result<String, Error>, choice: Result<Seq<char>, Seq<char>>) -> bool {
    match choice {
        Ok(label) => r matches Ok(x) && x@ == label,
        Err(reason) => r matches Err(Error::Request(m)) && m@ == reason,
    }
}

/// Chooses the webview window used when a request does not name one.
pub fn choose_default_webview_label(labels: Vec<String>) -> (r: Result<String, Error>)
    ensures
        label_outcome(r, default_label_choice(texts(labels@))),
{
    let ghost given = texts(labels@);
    let sorted = sort_strings(labels);
    proof {
        broadcast use vstd::seq_lib::group_to_multiset_ensures;
        lemma_sort_texts_sorted_permutation(given);
        assert(sort_texts(given).to_multiset().count("main"@) == given.to_multiset().count("main"@));
    }
    let n = sorted.len();
    if n == 1 {
        proof {
            broadcast use vstd::seq_lib::group_to_multiset_ensures;
            assert(given.len() == 1);
            assert(given.to_multiset().count(given[0]) > 0);
            assert(sort_texts(given).to_multiset().count(given[0]) > 0);
            assert(sort_texts(given).contains(given[0]));
        }
        return Ok(sorted[0].clone());
    }
    let mut i: usize = 0;
    while i < n
        invariant
            n == sorted@.len(),
            i <= n,
            texts(sorted@) == sort_texts(given),
            sort_texts(given).to_multiset() == given.to_multiset(),
            given.len() == n,
            n != 1,
            given == texts(labels@),
            forall|j: int| 0 <= j < i ==> sorted@[j]@ != "main"@,
        decreases n - i,
    {
        if same_text(sorted[i].as_str(), MAIN_LABEL) {
            proof {
                broadcast use vstd::seq_lib::group_to_multiset_ensures;
                assert(texts(sorted@)[i as int] == "main"@);
                assert(sort_texts(given).contains("main"@));
                assert(sort_texts(given).to_multiset().count("main"@) > 0);
                assert(given.contains("main"@));
            }
            return Ok("main".to_owned());
        }
        i = i + 1;
    }
    proof {
        if given.contains("main"@) {
            broadcast use vstd::seq_lib::group_to_multiset_ensures;
            assert(sort_texts(given).contains("main"@));
            let k = choose|k: int| 0 <= k < sort_texts(given).len() && sort_texts(given)[k] == "main"@;
            assert(texts(sorted@)[k] == sorted@[k]@);
        }
    }
    if n == 0 {
        return Err(Error::Request("no webview exists".to_owned()));
    }
    let listed = join(&sorted, ", ");
    let head = concat("multiple webviews exist (", listed.as_str());
    Err(Error::Request(concat(head.as_str(), "); set `webview` explicitly")))
}

/// The target of a forwarded request among the existing webview windows:
/// the requested label when given (an error when no window has it),
/// otherwise the default choice.
pub open spec fn webview_label_choice(labels: Seq<Seq<char>>, requested: Option<Seq<char>>) -> Result<Seq<char>, Seq<char>> {
    match requested {
        Some(label) => if labels.contains(label) {
            Ok(label)
        } else {
            Err("unknown webview `"@ + label + "`"@)
        },
        None => default_label_choice(labels),
    }
}

/// The view of an optional string.
pub open spec fn opt_text(o: Option<String>) -> Option<Seq<char>> {
    match o {
        Some(s) => Some(s@),
        None => None,
    }
}

/// Selects the webview window a forwarded request is delivered to.
pub fn select_webview_label(labels: Vec<String>, requested: Option<String>) -> (r: Result<String, Error>)
    ensures
        label_outcome(r, webview_label_choice(texts(labels@), opt_text(requested))),
{
    match requested {
        Some(label) => {
            let n = labels.len();
            let mut i: usize = 0;
            while i < n
                invariant
                    n == labels@.len(),
                    i <= n,
                    forall|j: int| 0 <= j < i ==> labels@[j]@ != label@,
                    opt_text(requested) == Some(label@),
                decreases n - i,
            {
                if same_text(labels[i].as_str(), label.as_str()) {
                    assert(texts(labels@)[i as int] == label@);
                    assert(texts(labels@).contains(label@));
                    return Ok(label);
                }
                i = i + 1;
            }
            proof {
                if texts(labels@).contains(label@) {
                    let k = choose|k: int| 0 <= k < texts(labels@).len() && texts(labels@)[k] == label@;
                    assert(labels@[k]@ == label@);
                }
            }
            let head = concat("unknown webview `", label.as_str());
            Err(Error::Request(concat(head.as_str(), "`")))
        },
        None => choose_default_webview_label(labels),
    }
}

/// The default choice depends only on which labels exist, however they are
/// listed: Tauri hands the webview windows over in a map without order, and
/// the choice, its error text included, comes out the same every time.
pub proof fn law_default_choice_ignores_order(a: Seq<Seq<char>>, b: Seq<Seq<char>>)
    requires
        a.to_multiset() == b.to_multiset(),
    ensures
        default_label_choice(a) == default_label_choice(b),
{
    broadcast use vstd::multiset::group_multiset_axioms, vstd::seq_lib::group_to_multiset_ensures;

    lemma_sort_texts_sorted_permutation(a);
    lemma_sort_texts_sorted_permutation(b);
    lemma_sorted_unique(sort_texts(a), sort_texts(b));
    assert(a.len() == a.to_multiset().len());
    assert(b.len() == b.to_multiset().len());
    assert(a.contains("main"@) == (a.to_multiset().count("main"@) > 0));
    assert(b.contains("main"@) == (b.to_multiset().count("main"@) > 0));
    if a.len() == 1 {
        assert(a.contains(a[0]));
        assert(b.to_multiset().count(a[0]) > 0);
        assert(b.contains(a[0]));
    }
}

} // verus!
