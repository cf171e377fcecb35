//! The template expander: a template is split on the delimiters `<` and
//! `>`; each segment whose text begins with `!` (mandatory) or `?`
//! (optional) is a placeholder whose body, after the marker, is a
//! dot-separated path into the document; every other segment is literal
//! text. Placeholders are substituted by samples drawn below their resolved
//! node — an optional one only on a fair coin flip, and by the empty text
//! otherwise. The pieces are concatenated and the double-space cleanup pass
//! is applied once.

use vstd::prelude::*;
use vstd::string::*;

use crate::error::GenError;
use crate::node::Node;
use crate::resolve::{fail_index, path_segments, resolve, resolve_spec};
use crate::rng::IndexSource;
use crate::sample::{is_sample_of, sample_at};
use crate::text::{collapse_double_spaces, collapse_spec, concat_all, split_by, split_on, views_of};

verus! {

/// The segments of a template: its text split on `<` and `>`.
pub open spec fn template_segments(t: Seq<char>) -> Seq<Seq<char>> {
    split_by(t, seq!['<', '>'])
}

/// Whether a segment calls for substitution.
pub open spec fn is_placeholder(seg: Seq<char>) -> bool {
    seg.len() > 0 && (seg[0] == '!' || seg[0] == '?')
}

/// The path of a placeholder segment: its text after the marker.
pub open spec fn placeholder_path(seg: Seq<char>) -> Seq<char> {
    seg.skip(1)
}

/// Every placeholder among `segs` has a path that resolves against `root`.
pub open spec fn all_paths_resolve(root: Node, segs: Seq<Seq<char>>) -> bool {
    forall|i: int|
        0 <= i < segs.len() && is_placeholder(#[trigger] segs[i]) ==> resolve_spec(
            root,
            path_segments(placeholder_path(segs[i])),
        ) is Some
}

/// The position of the first placeholder whose path does not resolve.
pub open spec fn first_bad_segment(root: Node, segs: Seq<Seq<char>>) -> int
    decreases segs.len(),
{
    if segs.len() == 0 {
        0
    } else if is_placeholder(segs[0]) && resolve_spec(
        root,
        path_segments(placeholder_path(segs[0])),
    ) is None {
        0
    } else {
        1 + first_bad_segment(root, segs.skip(1))
    }
}

/// How one template segment is rendered: a mandatory placeholder is always
/// replaced by a sample drawn below its resolved node; an optional one by
/// such a sample or by the empty text, as the coin fell; a literal segment
/// stands unchanged.
pub open spec fn piece_for(root: Node, seg: Seq<char>, piece: Seq<char>) -> bool {
    if seg.len() > 0 && seg[0] == '!' {
        resolve_spec(root, path_segments(placeholder_path(seg))) matches Some(n) && is_sample_of(
            n,
            piece,
        )
    } else if seg.len() > 0 && seg[0] == '?' {
        resolve_spec(root, path_segments(placeholder_path(seg))) matches Some(n) && (piece
            == Seq::<char>::empty() || is_sample_of(n, piece))
    } else {
        piece == seg
    }
}

/// The expansion relation: one piece per segment, each as `piece_for` says.
pub open spec fn is_expansion(root: Node, segs: Seq<Seq<char>>, pieces: Seq<Seq<char>>) -> bool {
    pieces.len() == segs.len() && forall|i: int|
        0 <= i < segs.len() ==> piece_for(root, #[trigger] segs[i], #[trigger] pieces[i])
}

/// Whether `out` is a possible expansion of the template `t` against
/// `root`: the rendered segments, concatenated, with the cleanup pass
/// applied once.
pub open spec fn expansion_of(root: Node, t: Seq<char>, out: Seq<char>) -> bool {
    exists|pieces: Seq<Seq<char>>|
        is_expansion(root, template_segments(t), pieces) && out == collapse_spec(
            concat_all(pieces),
        )
}

/// The error reported for the first placeholder whose path does not
/// resolve: it carries that path and the path's first offending segment.
pub open spec fn expansion_error(root: Node, segs: Seq<Seq<char>>, e: GenError) -> bool {
    let p = placeholder_path(segs[first_bad_segment(root, segs)]);
    e matches GenError::PathNotFound { segment, path } && path@ == p && segment@ == path_segments(
        p,
    )[fail_index(root, path_segments(p))]
}

proof fn lemma_first_bad_segment(root: Node, segs: Seq<Seq<char>>, k: int)
    requires
        0 <= k < segs.len(),
        forall|i: int|
            0 <= i < k ==> !(is_placeholder(#[trigger] segs[i]) && resolve_spec(
                root,
                path_segments(placeholder_path(segs[i])),
            ) is None),
        is_placeholder(segs[k]),
        resolve_spec(root, path_segments(placeholder_path(segs[k]))) is None,
    ensures
        first_bad_segment(root, segs) == k,
    decreases k,
{
    if k > 0 {
        let rest = segs.skip(1);
        assert forall|i: int| 0 <= i < k - 1 implies !(is_placeholder(#[trigger] rest[i])
            && resolve_spec(root, path_segments(placeholder_path(rest[i]))) is None) by {
            assert(rest[i] == segs[i + 1]);
        }
        assert(rest[k - 1] == segs[k]);
        lemma_first_bad_segment(root, rest, k - 1);
    }
}

/// Law: in every expansion, a mandatory placeholder is substituted — its
/// piece is a sample drawn below its resolved node, never the segment text
/// and never owed to a coin. An optional placeholder's piece is such a
/// sample or the empty text.
pub proof fn lemma_mandatory_always_substituted(
    root: Node,
    segs: Seq<Seq<char>>,
    pieces: Seq<Seq<char>>,
    i: int,
)
    requires
        is_expansion(root, segs, pieces),
        0 <= i < segs.len(),
        is_placeholder(segs[i]),
    ensures
        segs[i][0] == '!' ==> (resolve_spec(root, path_segments(placeholder_path(segs[i])))
            matches Some(n) && is_sample_of(n, pieces[i])),
        segs[i][0] == '?' ==> (resolve_spec(root, path_segments(placeholder_path(segs[i])))
            matches Some(n) && (pieces[i] == Seq::<char>::empty() || is_sample_of(n, pieces[i]))),
{
    assert(piece_for(root, segs[i], pieces[i]));
}

/// Expands one template against the document tree `root`. Succeeds if and
/// only if every placeholder's path resolves; the result is then the
/// concatenation of the rendered segments with the cleanup pass applied.
/// Otherwise the error is that of the first unresolvable placeholder, left
/// to right — for an optional placeholder too, whatever the coin did.
pub fn expand<R: IndexSource>(root: &Node, template: &str, rng: &mut R) -> (r: Result<
    String,
    GenError,
>)
    ensures
        match r {
            Ok(out) => all_paths_resolve(*root, template_segments(template@)) && expansion_of(
                *root,
                template@,
                out@,
            ),
            Err(e) => !all_paths_resolve(*root, template_segments(template@)) && expansion_error(
                *root,
                template_segments(template@),
                e,
            ),
        },
{
    let mut seps: Vec<char> = Vec::new();
    seps.push('<');
    seps.push('>');
    let segs = split_on(template, &seps);
    let ghost gsegs = template_segments(template@);
    proof {
        assert(seps@ =~= seq!['<', '>']);
        assert(views_of(segs@) == gsegs);
    }
    let mut pieces: Vec<String> = Vec::new();
    let mut k: usize = 0;
    while k < segs.len()
        invariant
            gsegs == template_segments(template@),
            views_of(segs@) == gsegs,
            k <= segs@.len(),
            pieces@.len() == k,
            forall|i: int| 0 <= i < k ==> piece_for(*root, gsegs[i], #[trigger] pieces@[i]@),
        decreases segs@.len() - k,
    {
        let seg = &segs[k];
        let ghost gseg = gsegs[k as int];
        proof {
            assert(seg@ == gseg);
        }
        let slen = seg.as_str().unicode_len();
        let marker = if slen > 0 {
            seg.as_str().get_char(0)
        } else {
            ' '
        };
        if slen > 0 && (marker == '!' || marker == '?') {
            let p = seg.as_str().substring_char(1, slen);
            proof {
                assert(p@ =~= placeholder_path(gseg));
            }
            let outcome = if marker == '!' {
                sample_at(root, p, rng)
            } else {
                let flip = rng.next_below(2);
                if flip == 1 {
                    sample_at(root, p, rng)
                } else {
                    match resolve(root, p) {
                        Ok(_) => Ok(String::new()),
                        Err(e) => Err(e),
                    }
                }
            };
            match outcome {
                Ok(piece) => {
                    proof {
                        assert(piece_for(*root, gseg, piece@));
                    }
                    pieces.push(piece);
                },
                Err(e) => {
                    proof {
                        assert(is_placeholder(gseg));
                        assert(!all_paths_resolve(*root, gsegs));
                        assert forall|i: int| 0 <= i < k implies !(is_placeholder(
                            #[trigger] gsegs[i],
                        ) && resolve_spec(*root, path_segments(placeholder_path(gsegs[i])))
                            is None) by {
                            assert(piece_for(*root, gsegs[i], pieces@[i]@));
                        }
                        lemma_first_bad_segment(*root, gsegs, k as int);
                    }
                    return Err(e);
                },
            }
        } else {
            let piece = seg.clone();
            proof {
                assert(piece_for(*root, gseg, piece@));
            }
            pieces.push(piece);
        }
        k = k + 1;
    }
    let ghost all = views_of(pieces@);
    let mut joined = String::new();
    let mut j: usize = 0;
    proof {
        assert(all.skip(0) =~~= all);
        assert(Seq::<char>::empty() + concat_all(all) =~= concat_all(all));
    }
    while j < pieces.len()
        invariant
            all == views_of(pieces@),
            j <= pieces@.len(),
            concat_all(all) == joined@ + concat_all(all.skip(j as int)),
        decreases pieces@.len() - j,
    {
        let ghost before = joined@;
        proof {
            assert(all.skip(j as int)[0] == all[j as int]);
            assert(all.skip(j as int).skip(1) =~~= all.skip(j as int + 1));
        }
        joined.append(pieces[j].as_str());
        proof {
            assert(before + (all[j as int] + concat_all(all.skip(j as int + 1))) =~= (before
                + all[j as int]) + concat_all(all.skip(j as int + 1)));
        }
        j = j + 1;
    }
    proof {
        assert(all.skip(pieces@.len() as int) =~~= Seq::<Seq<char>>::empty());
        assert(joined@ + concat_all(Seq::<Seq<char>>::empty()) =~= joined@);
    }
    let out = collapse_double_spaces(joined.as_str());
    proof {
        assert forall|i: int| 0 <= i < gsegs.len() && is_placeholder(#[trigger] gsegs[i]) implies
            resolve_spec(*root, path_segments(placeholder_path(gsegs[i]))) is Some by {
            assert(piece_for(*root, gsegs[i], pieces@[i]@));
        }
        assert(all_paths_resolve(*root, template_segments(template@)));
        assert(is_expansion(*root, template_segments(template@), all) && out@ == collapse_spec(
            concat_all(all),
        ));
        assert(exists|ps: Seq<Seq<char>>|
            is_expansion(*root, template_segments(template@), ps) && out@ == collapse_spec(
                concat_all(ps),
            ));
    }
    Ok(out)
}

/// Expands the same template `count` times, each with fresh randomness
/// draws, collecting one sentence per request. All requests succeed or the
/// first unresolvable placeholder's error ends the whole run, as the
/// propagation policy demands.
pub fn generate<R: IndexSource>(root: &Node, template: &str, count: usize, rng: &mut R) -> (r:
    Result<Vec<String>, GenError>)
    ensures
        match r {
            Ok(outs) => {
                &&& outs@.len() == count
                &&& count > 0 ==> all_paths_resolve(*root, template_segments(template@))
                &&& forall|i: int|
                    0 <= i < count ==> expansion_of(*root, template@, #[trigger] outs@[i]@)
            },
            Err(e) => !all_paths_resolve(*root, template_segments(template@)) && expansion_error(
                *root,
                template_segments(template@),
                e,
            ),
        },
{
    let mut outs: Vec<String> = Vec::new();
    let mut made: usize = 0;
    while made < count
        invariant
            made <= count,
            outs@.len() == made,
            made > 0 ==> all_paths_resolve(*root, template_segments(template@)),
            forall|i: int|
                0 <= i < made ==> expansion_of(*root, template@, #[trigger] outs@[i]@),
        decreases count - made,
    {
        match expand(root, template, rng) {
            Ok(sentence) => {
                outs.push(sentence);
            },
            Err(e) => {
                return Err(e);
            },
        }
        made = made + 1;
    }
    Ok(outs)
}

} // verus!
