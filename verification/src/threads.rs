//! Comment threads fetched during the current refresh cycle, kept by issue id
//! so that walking back over an issue costs no second request.
use vstd::prelude::*;

use crate::app::{eq_str, App};
use crate::detail::DetailState;
use crate::types::Comment;

verus! {

broadcast use vstd::string::group_string_axioms;

/// The thread cached for issue `id`: the latest entry under that id.
pub open spec fn cached(cache: Seq<(String, Vec<Comment>)>, id: Seq<char>) -> Option<Seq<Comment>>
    decreases cache.len(),
{
    if cache.len() == 0 {
        None
    } else if cache.last().0@ == id {
        Some(cache.last().1@)
    } else {
        cached(cache.drop_last(), id)
    }
}

/// The comment count the loaded data gives issue `id`: that of the first
/// issue with this id, looking through the repos in order.
pub open spec fn issue_comment_count(repos: Seq<crate::types::RepoIssues>, id: Seq<char>) -> Option<u64>
    decreases repos.len(),
{
    if repos.len() == 0 {
        None
    } else {
        match count_in(repos[0].issues@, id) {
            Some(n) => Some(n),
            None => issue_comment_count(repos.drop_first(), id),
        }
    }
}

pub open spec fn count_in(issues: Seq<crate::types::Issue>, id: Seq<char>) -> Option<u64>
    decreases issues.len(),
{
    if issues.len() == 0 {
        None
    } else if issues[0].id@ == id {
        Some(issues[0].comment_count)
    } else {
        count_in(issues.drop_first(), id)
    }
}

/// A copy of a thread, comment for comment.
pub fn copy_comments(v: &Vec<Comment>) -> (r: Vec<Comment>)
    ensures
        r@ == v@,
{
    let mut out: Vec<Comment> = Vec::new();
    let mut i: usize = 0;
    while i < v.len()
        invariant
            i <= v@.len(),
            out@ == v@.subrange(0, i as int),
        decreases v@.len() - i,
    {
        out.push(v[i].duplicate());
        i += 1;
    }
    assert(out@ =~= v@);
    out
}

fn find_count_in(issues: &Vec<crate::types::Issue>, id: &str) -> (r: Option<u64>)
    ensures
        r == count_in(issues@, id@),
{
    let ghost all = issues@;
    assert(all.subrange(0, all.len() as int) =~= all);
    let mut i: usize = 0;
    while i < issues.len()
        invariant
            i <= all.len(),
            all == issues@,
            count_in(all, id@) == count_in(all.subrange(i as int, all.len() as int), id@),
        decreases all.len() - i,
    {
        let ghost sub = all.subrange(i as int, all.len() as int);
        assert(sub.drop_first() =~= all.subrange(i + 1, all.len() as int));
        assert(sub[0] == all[i as int]);
        if eq_str(issues[i].id.as_str(), id) {
            return Some(issues[i].comment_count);
        }
        i += 1;
    }
    assert(all.subrange(i as int, all.len() as int).len() == 0);
    None
}

/// Looking up a thread after one more entry went in.
proof fn lemma_cached_push(s: Seq<(String, Vec<Comment>)>, e: (String, Vec<Comment>), t: Seq<char>)
    ensures
        cached(s.push(e), t) == if e.0@ == t {
            Some(e.1@)
        } else {
            cached(s, t)
        },
{
    assert(s.push(e).drop_last() =~= s);
}

impl App {
    /// The comment count of issue `id` in the loaded data.
    pub fn comment_count_of(&self, id: &str) -> (r: Option<u64>)
        ensures
            r == issue_comment_count(self.repos@, id@),
    {
        let ghost all = self.repos@;
        assert(all.subrange(0, all.len() as int) =~= all);
        let mut i: usize = 0;
        while i < self.repos.len()
            invariant
                i <= all.len(),
                all == self.repos@,
                issue_comment_count(all, id@) == issue_comment_count(
                    all.subrange(i as int, all.len() as int),
                    id@,
                ),
            decreases all.len() - i,
        {
            let ghost sub = all.subrange(i as int, all.len() as int);
            assert(sub.drop_first() =~= all.subrange(i + 1, all.len() as int));
            assert(sub[0] == all[i as int]);
            match find_count_in(&self.repos[i].issues, id) {
                Some(n) => return Some(n),
                None => {},
            }
            i += 1;
        }
        assert(all.subrange(i as int, all.len() as int).len() == 0);
        None
    }

    /// Forget the cached thread of issue `id`, so the next visit refetches.
    pub fn invalidate_comments(&mut self, id: &str)
        ensures
            forall|t: Seq<char>|
                #[trigger] cached(final(self).comment_cache@, t) == if t == id@ {
                    None
                } else {
                    cached(old(self).comment_cache@, t)
                },
            *final(self) == (App { comment_cache: final(self).comment_cache, ..*old(self) }),
    {
        let ghost src = self.comment_cache@;
        let mut kept: Vec<(String, Vec<Comment>)> = Vec::new();
        let mut i: usize = 0;
        while i < self.comment_cache.len()
            invariant
                i <= src.len(),
                src == self.comment_cache@,
                forall|t: Seq<char>|
                    #[trigger] cached(kept@, t) == if t == id@ {
                        None
                    } else {
                        cached(src.subrange(0, i as int), t)
                    },
            decreases src.len() - i,
        {
            let e = &self.comment_cache[i];
            proof {
                assert(src.subrange(0, i + 1) =~= src.subrange(0, i as int).push(*e));
            }
            let ghost before = kept@;
            if !eq_str(e.0.as_str(), id) {
                kept.push((e.0.clone(), copy_comments(&e.1)));
            }
            proof {
                assert forall|t: Seq<char>|
                    #[trigger] cached(kept@, t) == if t == id@ {
                        None
                    } else {
                        cached(src.subrange(0, i + 1), t)
                    } by {
                    lemma_cached_push(src.subrange(0, i as int), *e, t);
                    if e.0@ != id@ {
                        lemma_cached_push(before, kept@.last(), t);
                        assert(kept@ =~= before.push(kept@.last()));
                    }
                }
            }
            i += 1;
        }
        assert(src.subrange(0, i as int) =~= src);
        self.comment_cache = kept;
    }

    /// Keep a fetched thread for issue `id`, replacing any earlier one.
    pub fn cache_comments(&mut self, id: String, comments: Vec<Comment>)
        ensures
            forall|t: Seq<char>|
                #[trigger] cached(final(self).comment_cache@, t) == if t == id@ {
                    Some(comments@)
                } else {
                    cached(old(self).comment_cache@, t)
                },
            *final(self) == (App { comment_cache: final(self).comment_cache, ..*old(self) }),
    {
        self.invalidate_comments(id.as_str());
        let ghost mid = self.comment_cache@;
        let ghost idv = id@;
        let ghost cv = comments@;
        self.comment_cache.push((id, comments));
        proof {
            assert forall|t: Seq<char>|
                #[trigger] cached(self.comment_cache@, t) == if t == id@ {
                    Some(comments@)
                } else {
                    cached(old(self).comment_cache@, t)
                } by {
                lemma_cached_push(mid, self.comment_cache@.last(), t);
                assert(self.comment_cache@ =~= mid.push(self.comment_cache@.last()));
            }
        }
    }

    /// Show issue `id`'s thread in the detail pane without a request when
    /// that can be done: from the cache, or as an empty thread when the
    /// issue has no comments. Otherwise the pane waits (`None`) and the id
    /// comes back for the caller to fetch.
    pub fn load_comments(&mut self, id: String) -> (r: Option<String>)
        ensures
            match cached(old(self).comment_cache@, id@) {
                Some(cs) => r.is_none() && (final(self).detail.comments matches Some(v) && v@ == cs),
                None => if issue_comment_count(old(self).repos@, id@) == Some(0u64) {
                    r.is_none() && (final(self).detail.comments matches Some(v) && v@.len() == 0)
                } else {
                    r == Some(id) && final(self).detail.comments.is_none()
                },
            },
            *final(self) == (App {
                detail: DetailState { comments: final(self).detail.comments, ..old(self).detail },
                ..*old(self)
            }),
    {
        let ghost all = self.comment_cache@;
        assert(all.subrange(0, all.len() as int) =~= all);
        let mut i: usize = self.comment_cache.len();
        while i > 0
            invariant
                i <= all.len(),
                all == self.comment_cache@,
                *self == *old(self),
                cached(all, id@) == cached(all.subrange(0, i as int), id@),
            decreases i,
        {
            let ghost pre = all.subrange(0, i as int);
            assert(pre.drop_last() =~= all.subrange(0, i - 1));
            assert(pre.last() == all[i - 1]);
            if eq_str(self.comment_cache[i - 1].0.as_str(), id.as_str()) {
                let cs = copy_comments(&self.comment_cache[i - 1].1);
                self.detail.comments = Some(cs);
                return None;
            }
            i -= 1;
        }
        assert(all.subrange(0, 0).len() == 0);
        if self.comment_count_of(id.as_str()) == Some(0u64) {
            self.detail.comments = Some(Vec::new());
            None
        } else {
            self.detail.comments = None;
            Some(id)
        }
    }
}

} // verus!
