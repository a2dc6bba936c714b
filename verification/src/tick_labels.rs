//! Tick labels along an axis.

use crate::span::{label_len, max_label_len};
use crate::text::push_char;
use vstd::prelude::*;
use vstd::string::StringExecFns;
use vstd::utf8::{encode_scalar, encode_utf8};

verus! {

/// `n` spaces.
pub open spec fn spaces(n: nat) -> Seq<char> {
    Seq::new(n, |i: int| ' ')
}

/// A label padded on the left with spaces to the byte length of the longest
/// label, so that labels stacked on a vertical axis line up on the right.
pub open spec fn aligned_label(labels: Seq<Seq<char>>, i: int) -> Seq<char> {
    spaces((max_label_len(labels) - label_len(labels[i])) as nat) + labels[i]
}

/// No label is longer than the longest.
pub proof fn lemma_max_label_len_bounds(labels: Seq<Seq<char>>)
    ensures
        forall|i: int| 0 <= i < labels.len() ==> label_len(#[trigger] labels[i]) <= max_label_len(labels),
        labels.len() > 0 ==> exists|i: int|
            0 <= i < labels.len() && label_len(#[trigger] labels[i]) == max_label_len(labels),
    decreases labels.len(),
{
    if labels.len() > 0 {
        let rest = labels.drop_last();
        lemma_max_label_len_bounds(rest);
        assert forall|i: int| 0 <= i < labels.len() implies label_len(#[trigger] labels[i]) <= max_label_len(labels) by {
            if i < labels.len() - 1 {
                assert(labels[i] == rest[i]);
            }
        }
        if label_len(labels.last()) > max_label_len(rest) {
            assert(label_len(labels[labels.len() - 1]) == max_label_len(labels));
        } else if rest.len() == 0 {
            crate::span::lemma_max_label_len_nonneg(labels);
            assert(label_len(labels[0]) == max_label_len(labels));
        } else {
            let w = choose|w: int| 0 <= w < rest.len() && label_len(rest[w]) == max_label_len(rest);
            assert(labels[w] == rest[w]);
            assert(label_len(labels[w]) == max_label_len(labels));
        }
    }
}

/// Pads each label with leading spaces to the byte length of the longest.
pub fn align_tick_labels(labels: Vec<String>) -> (r: Vec<String>)
    ensures
        r@.len() == labels@.len(),
        forall|i: int|
            0 <= i < r@.len() ==> (#[trigger] r@[i])@ == aligned_label(
                labels@.map_values(|l: String| l@),
                i,
            ),
{
    let ghost ls = labels@.map_values(|l: String| l@);
    let longest = crate::span::longest_label(&labels);
    proof {
        lemma_max_label_len_bounds(ls);
    }
    let mut out: Vec<String> = Vec::new();
    let mut i: usize = 0;
    while i < labels.len()
        invariant
            i <= labels@.len(),
            ls == labels@.map_values(|l: String| l@),
            longest == max_label_len(ls),
            forall|k: int| 0 <= k < ls.len() ==> label_len(#[trigger] ls[k]) <= max_label_len(ls),
            out@.len() == i,
            forall|k: int| 0 <= k < i ==> (#[trigger] out@[k])@ == aligned_label(ls, k),
        decreases labels@.len() - i,
    {
        let label = labels[i].as_str();
        let len = label.len();
        assert(ls[i as int] == labels@[i as int]@);
        let pad = longest - len;
        let mut s = String::new();
        let mut k: usize = 0;
        while k < pad
            invariant
                k <= pad,
                s@ == spaces(k as nat),
            decreases pad - k,
        {
            push_char(&mut s, ' ');
            k = k + 1;
            assert(s@ =~= spaces(k as nat));
        }
        s.append(label);
        assert(s@ =~= aligned_label(ls, i as int));
        out.push(s);
        i = i + 1;
    }
    out
}

proof fn lemma_encode_space_prefix(n: nat, l: Seq<char>)
    ensures
        encode_utf8(spaces(n) + l).len() == n + encode_utf8(l).len(),
    decreases n,
{
    if n > 0 {
        let s = spaces(n) + l;
        assert(s.drop_first() =~= spaces((n - 1) as nat) + l);
        assert(s[0] == ' ');
        assert(vstd::utf8::has_width_1_encoding(' ' as u32));
        assert(encode_scalar(' ' as u32).len() == 1);
        lemma_encode_space_prefix((n - 1) as nat, l);
    }
}

/// Aligned labels all take the byte length of the longest label.
pub proof fn lemma_aligned_labels_same_length(labels: Seq<Seq<char>>)
    requires
        forall|i: int| 0 <= i < labels.len() ==> encode_utf8(#[trigger] labels[i]).len() <= usize::MAX,
    ensures
        forall|i: int|
            0 <= i < labels.len() ==> label_len(#[trigger] aligned_label(labels, i)) == max_label_len(labels),
{
    lemma_max_label_len_bounds(labels);
    assert forall|i: int| 0 <= i < labels.len() implies label_len(#[trigger] aligned_label(labels, i))
        == max_label_len(labels) by {
        assert(label_len(labels[i]) <= max_label_len(labels));
        crate::span::lemma_max_label_len_nonneg(labels);
        lemma_encode_space_prefix((max_label_len(labels) - label_len(labels[i])) as nat, labels[i]);
    }
}

} // verus!
