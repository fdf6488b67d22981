//! Breadcrumb decomposition of a `/`-separated path: each component with
//! the path prefix that leads to it.

use vstd::prelude::*;

use crate::text::chars_to_string;

verus! {

/// A path that starts at the root.
pub open spec fn is_absolute(s: Seq<char>) -> bool {
    s.len() > 0 && s[0] == '/'
}

/// Splitting a path into its non-empty segments between slashes.
pub open spec fn seg_feed(done: Seq<Seq<char>>, cur: Seq<char>, s: Seq<char>) -> Seq<Seq<char>>
    decreases s.len(),
{
    if s.len() == 0 {
        if cur.len() == 0 {
            done
        } else {
            done.push(cur)
        }
    } else if s[0] == '/' {
        seg_feed(
            if cur.len() == 0 {
                done
            } else {
                done.push(cur)
            },
            Seq::empty(),
            s.drop_first(),
        )
    } else {
        seg_feed(done, cur.push(s[0]), s.drop_first())
    }
}

/// The path's non-empty segments, in order.
pub open spec fn path_segments(s: Seq<char>) -> Seq<Seq<char>> {
    seg_feed(Seq::empty(), Seq::empty(), s)
}

/// The segments joined back into a path: rooted when `abs`, with a single
/// slash between segments.
pub open spec fn joined(abs: bool, segs: Seq<Seq<char>>) -> Seq<char>
    decreases segs.len(),
{
    if segs.len() == 0 {
        if abs {
            "/"@
        } else {
            Seq::empty()
        }
    } else if segs.len() == 1 {
        (if abs {
            "/"@
        } else {
            Seq::<char>::empty()
        }) + segs[0]
    } else {
        joined(abs, segs.drop_last()) + seq!['/'] + segs.last()
    }
}

/// Splits a path into its non-empty segments.
pub fn split_segments(path: &str) -> (r: Vec<String>)
    ensures
        crate::scrollback::views(r@) == path_segments(path@),
{
    let len = path.unicode_len();
    let mut done: Vec<String> = Vec::new();
    let mut cur: Vec<char> = Vec::new();
    let mut i: usize = 0;
    proof {
        assert(path@.skip(0) =~= path@);
        assert(crate::scrollback::views(done@) =~= Seq::<Seq<char>>::empty());
        assert(cur@ =~= Seq::<char>::empty());
    }
    while i < len
        invariant
            i <= len,
            len == path@.len(),
            seg_feed(crate::scrollback::views(done@), cur@, path@.skip(i as int)) == path_segments(
                path@,
            ),
        decreases len - i,
    {
        let c = path.get_char(i);
        let ghost pre_done = crate::scrollback::views(done@);
        let ghost pre_cur = cur@;
        proof {
            assert(path@.skip(i as int)[0] == c);
            assert(path@.skip(i as int).drop_first() =~= path@.skip(i + 1));
        }
        if c == '/' {
            if cur.len() > 0 {
                let seg = chars_to_string(&cur);
                done.push(seg);
                cur = Vec::new();
                proof {
                    assert(crate::scrollback::views(done@) =~= pre_done.push(pre_cur));
                    assert(cur@ =~= Seq::<char>::empty());
                }
            } else {
                proof {
                    assert(pre_cur =~= Seq::<char>::empty());
                }
            }
            proof {
                assert(seg_feed(pre_done, pre_cur, path@.skip(i as int)) == seg_feed(
                    crate::scrollback::views(done@),
                    cur@,
                    path@.skip(i + 1),
                ));
            }
        } else {
            cur.push(c);
            proof {
                assert(cur@ == pre_cur.push(c));
                assert(seg_feed(pre_done, pre_cur, path@.skip(i as int)) == seg_feed(
                    pre_done,
                    pre_cur.push(c),
                    path@.skip(i + 1),
                ));
            }
        }
        i = i + 1;
    }
    proof {
        assert(path@.skip(len as int) =~= Seq::<char>::empty());
    }
    if cur.len() > 0 {
        let ghost pre_done = crate::scrollback::views(done@);
        let seg = chars_to_string(&cur);
        done.push(seg);
        proof {
            assert(crate::scrollback::views(done@) =~= pre_done.push(cur@));
        }
    }
    done
}

proof fn lemma_joined_step(abs: bool, segs: Seq<Seq<char>>, k: int)
    requires
        0 <= k < segs.len(),
    ensures
        joined(abs, segs.take(k + 1)) == if k == 0 {
            (if abs {
                "/"@
            } else {
                Seq::<char>::empty()
            }) + segs[0]
        } else {
            joined(abs, segs.take(k)) + seq!['/'] + segs[k]
        },
{
    let t = segs.take(k + 1);
    if k == 0 {
        assert(t.len() == 1);
        assert(t[0] == segs[0]);
    } else {
        assert(t.drop_last() =~= segs.take(k));
        assert(t.last() == segs[k]);
    }
}

/// The breadcrumb row of a path: each shown component beside the full path
/// that clicking it navigates to. An absolute path starts with the root
/// component `/`.
pub fn breadcrumb_targets(path: &str) -> (r: Vec<(String, String)>)
    ensures
        ({
            let segs = path_segments(path@);
            let abs = is_absolute(path@);
            let base: int = if abs {
                1
            } else {
                0
            };
            &&& r@.len() == segs.len() + base
            &&& (abs ==> r@[0].0@ == "/"@ && r@[0].1@ == "/"@)
            &&& forall|k: int|
                0 <= k < segs.len() ==> (#[trigger] r@[k + base]).0@ == segs[k] && r@[k
                    + base].1@ == joined(abs, segs.take(k + 1))
        }),
{
    let abs = path.unicode_len() > 0 && path.get_char(0) == '/';
    let segs = split_segments(path);
    let ghost segs_view = path_segments(path@);
    let mut out: Vec<(String, String)> = Vec::new();
    let mut acc: String = if abs {
        "/".to_owned()
    } else {
        String::new()
    };
    if abs {
        out.push(("/".to_owned(), "/".to_owned()));
    }
    let ghost base: int = if abs {
        1int
    } else {
        0int
    };
    let mut k: usize = 0;
    proof {
        assert(segs_view.take(0) =~= Seq::<Seq<char>>::empty());
    }
    while k < segs.len()
        invariant
            k <= segs@.len(),
            crate::scrollback::views(segs@) == segs_view,
            base == if abs {
                1int
            } else {
                0int
            },
            abs == is_absolute(path@),
            acc@ == joined(abs, segs_view.take(k as int)),
            out@.len() == k + base,
            abs ==> out@[0].0@ == "/"@ && out@[0].1@ == "/"@,
            forall|m: int|
                0 <= m < k ==> (#[trigger] out@[m + base]).0@ == segs_view[m] && out@[m + base].1@
                    == joined(abs, segs_view.take(m + 1)),
        decreases segs@.len() - k,
    {
        proof {
            lemma_joined_step(abs, segs_view, k as int);
            assert(segs_view[k as int] == segs@[k as int]@);
        }
        if k == 0 {
            acc.append(segs[k].as_str());
            proof {
                if abs {
                    assert(acc@ =~= "/"@ + segs_view[0]);
                } else {
                    assert(acc@ =~= Seq::<char>::empty() + segs_view[0]);
                }
            }
        } else {
            acc.push('/');
            acc.append(segs[k].as_str());
            proof {
                assert(acc@ =~= joined(abs, segs_view.take(k as int)) + seq!['/']
                    + segs_view[k as int]);
            }
        }
        out.push((segs[k].clone(), acc.clone()));
        k = k + 1;
    }
    proof {
        assert(segs_view.take(segs_view.len() as int) =~= segs_view);
    }
    out
}

} // verus!
