//! Figures about the posts that a request found.

use std::collections::HashSet;
use vstd::prelude::*;

use crate::seqs::lemma_filter_step;
use crate::thunder::posts::LightPost;

verus! {

broadcast use vstd::std_specs::hash::group_hash_axioms;

/// Figures about a set of posts that is not empty.
#[derive(Clone, Copy, Debug, PartialEq, Eq, Structural)]
pub struct PostStatistics {
    pub total: usize,
    pub original_count: usize,
    pub reply_count: usize,
    pub unique_author_count: usize,
    /// Seconds since the newest post was created.
    pub time_since_most_recent: i128,
    /// Seconds between the oldest and the newest post.
    pub time_range: i128,
}

/// `moment` is the creation time of one of `posts`, and none of them is newer.
pub open spec fn is_newest(posts: Seq<LightPost>, moment: int) -> bool {
    &&& exists|i: int| 0 <= i < posts.len() && (#[trigger] posts[i]).created_at == moment
    &&& forall|i: int| 0 <= i < posts.len() ==> (#[trigger] posts[i]).created_at <= moment
}

/// `moment` is the creation time of one of `posts`, and none of them is older.
pub open spec fn is_oldest(posts: Seq<LightPost>, moment: int) -> bool {
    &&& exists|i: int| 0 <= i < posts.len() && (#[trigger] posts[i]).created_at == moment
    &&& forall|i: int| 0 <= i < posts.len() ==> moment <= (#[trigger] posts[i]).created_at
}

/// The authors of `posts`.
pub open spec fn authors(posts: Seq<LightPost>) -> Set<i64> {
    posts.map_values(|post: LightPost| post.author_id).to_set()
}

/// The replies among `posts`.
pub open spec fn replies(posts: Seq<LightPost>) -> Seq<LightPost> {
    posts.filter(|post: LightPost| post.is_reply)
}

/// Figures about `posts` at time `now`; of no posts there are none.
pub fn analyze_post_statistics(posts: &[LightPost], now: u64) -> (statistics: Option<
    PostStatistics,
>)
    ensures
        statistics is None <==> posts@.len() == 0,
        statistics matches Some(figures) ==> {
            &&& figures.total == posts@.len()
            &&& figures.reply_count == replies(posts@).len()
            &&& figures.original_count == posts@.len() - replies(posts@).len()
            &&& figures.unique_author_count == authors(posts@).len()
            &&& is_newest(posts@, now - figures.time_since_most_recent)
            &&& is_oldest(posts@, now - figures.time_since_most_recent - figures.time_range)
        },
{
    if posts.len() == 0 {
        return None;
    }
    let ghost is_reply = |post: LightPost| post.is_reply;
    let ghost author = |post: LightPost| post.author_id;
    let mut newest: i64 = posts[0].created_at;
    let mut oldest: i64 = posts[0].created_at;
    let mut reply_count: usize = 0;
    let mut unique_authors: HashSet<i64> = HashSet::new();
    let mut i: usize = 0;
    assert(posts@.take(0).filter(is_reply) =~= Seq::empty()) by {
        reveal(Seq::filter);
    }
    assert(posts@.take(0).map_values(author).to_set() =~= Set::empty());
    while i < posts.len()
        invariant
            i <= posts.len(),
            posts.len() > 0,
            is_reply == (|post: LightPost| post.is_reply),
            author == (|post: LightPost| post.author_id),
            reply_count <= i,
            reply_count == posts@.take(i as int).filter(is_reply).len(),
            unique_authors@ == posts@.take(i as int).map_values(author).to_set(),
            exists|n: int| 0 <= n < posts@.len() && (#[trigger] posts@[n]).created_at == newest,
            exists|n: int| 0 <= n < posts@.len() && (#[trigger] posts@[n]).created_at == oldest,
            forall|n: int|
                0 <= n < i ==> oldest <= (#[trigger] posts@[n]).created_at <= newest,
        decreases posts.len() - i,
    {
        let post = posts[i];
        proof {
            lemma_filter_step(posts@, i as int, is_reply);
            let seen = posts@.take(i as int).map_values(author);
            assert(posts@.take(i + 1).map_values(author) =~= seen.push(post.author_id));
            seen.lemma_push_to_set_commute(post.author_id);
            assert(posts@[i as int].created_at == post.created_at);
        }
        if post.created_at > newest {
            newest = post.created_at;
        }
        if post.created_at < oldest {
            oldest = post.created_at;
        }
        if post.is_reply {
            reply_count = reply_count + 1;
        }
        unique_authors.insert(post.author_id);
        i = i + 1;
    }
    assert(posts@.take(i as int) =~= posts@);
    Some(
        PostStatistics {
            total: posts.len(),
            original_count: posts.len() - reply_count,
            reply_count,
            unique_author_count: unique_authors.len(),
            time_since_most_recent: now as i128 - newest as i128,
            time_range: newest as i128 - oldest as i128,
        },
    )
}

} // verus!
