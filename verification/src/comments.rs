//! Comments on posts: who may comment (one top-level comment per user and
//! post, replies to existing comments), who may change a comment, how
//! comment lists are sorted, and whom a new comment is announced to.

use vstd::prelude::*;
use crate::errors::{AppError, is_validation_error};
use crate::ids::{is_object_id, check_object_id};
use crate::text::{str_eq, concat};
use crate::posts::{is_blank, blank, cuts_cleanly, byte_len, preview_bytes};

verus! {

fn validation(msg: &str) -> (e: AppError)
    ensures
        is_validation_error(e, msg@),
{
    AppError::ValidationError(String::from_str(msg))
}

/// A new comment, or a reply when it names the comment it answers.
#[derive(Debug, Clone)]
pub struct CreateCommentRequest {
    pub user_id: String,
    pub user_name: String,
    pub comment: String,
    pub parent_comment_id: Option<String>,
}

/// The outcome of a new comment on post `post_id`, in the order the checks
/// are made: a comment that is not blank, an author id and name that are
/// not blank, a well-formed post id naming an existing post, for a
/// top-level comment no earlier top-level comment by the author on the
/// post, and for a reply a well-formed parent id naming an existing
/// comment. On success the result tells whether it is a reply.
pub open spec fn spec_comment(
    post_id: Seq<char>,
    req: CreateCommentRequest,
    post_found: bool,
    already_commented: bool,
    parent_found: bool,
    r: Result<bool, AppError>,
) -> bool {
    if is_blank(req.comment@) {
        r matches Err(e) && is_validation_error(e, "Comment cannot be empty"@)
    } else if is_blank(req.user_id@) || is_blank(req.user_name@) {
        r matches Err(e) && is_validation_error(e, "User ID and name are required"@)
    } else if !is_object_id(post_id) || !post_found {
        r == Err::<bool, AppError>(AppError::PostNotFound)
    } else {
        match req.parent_comment_id {
            None => if already_commented {
                r matches Err(e) && is_validation_error(e,
                    "You have already commented on this post. You can edit your existing comment."@)
            } else {
                r == Ok::<bool, AppError>(false)
            },
            Some(p) => if !is_object_id(p@) {
                r matches Err(e) && is_validation_error(e, "Invalid parent comment ID"@)
            } else if !parent_found {
                r matches Err(e) && is_validation_error(e, "Parent comment not found"@)
            } else {
                r == Ok::<bool, AppError>(true)
            },
        }
    }
}

/// Decides a new comment (see `spec_comment`), given whether the post
/// exists, whether the author already has a top-level comment on it, and
/// whether the parent comment exists.
pub fn decide_comment(
    post_id: &str,
    req: &CreateCommentRequest,
    post_found: bool,
    already_commented: bool,
    parent_found: bool,
) -> (r: Result<bool, AppError>)
    ensures
        spec_comment(post_id@, *req, post_found, already_commented, parent_found, r),
{
    if blank(req.comment.as_str()) {
        return Err(validation("Comment cannot be empty"));
    }
    if blank(req.user_id.as_str()) || blank(req.user_name.as_str()) {
        return Err(validation("User ID and name are required"));
    }
    if check_object_id(post_id).is_err() || !post_found {
        return Err(AppError::PostNotFound);
    }
    match &req.parent_comment_id {
        None => if already_commented {
            Err(validation("You have already commented on this post. You can edit your existing comment."))
        } else {
            Ok(false)
        },
        Some(p) => if check_object_id(p.as_str()).is_err() {
            Err(validation("Invalid parent comment ID"))
        } else if !parent_found {
            Err(validation("Parent comment not found"))
        } else {
            Ok(true)
        },
    }
}

/// Looks up a comment by id: a malformed id and a missing comment are
/// refused with their own messages.
pub fn check_comment_found(comment_id: &str, found: bool) -> (r: Result<(), AppError>)
    ensures
        !is_object_id(comment_id@) ==> (r matches Err(e) && is_validation_error(e, "Invalid comment ID"@)),
        is_object_id(comment_id@) && !found ==> (r matches Err(e) && is_validation_error(e, "Comment not found"@)),
        is_object_id(comment_id@) && found ==> r is Ok,
{
    if check_object_id(comment_id).is_err() {
        return Err(validation("Invalid comment ID"));
    }
    if !found {
        return Err(validation("Comment not found"));
    }
    Ok(())
}

/// A change to a comment.
#[derive(Debug, Clone)]
pub struct UpdateCommentRequest {
    pub user_id: String,
    pub comment: String,
}

/// Decides an edit of a comment, given its author (`None`: no such
/// comment): the new text must not be blank, the comment must exist under
/// a well-formed id, and only its author may edit it.
pub fn decide_comment_edit(comment_id: &str, author: &Option<String>, req: &UpdateCommentRequest) -> (r: Result<(), AppError>)
    ensures
        is_blank(req.comment@) ==> (r matches Err(e) && is_validation_error(e, "Comment cannot be empty"@)),
        !is_blank(req.comment@) && !is_object_id(comment_id@) ==> (r matches Err(e) && is_validation_error(e, "Invalid comment ID"@)),
        !is_blank(req.comment@) && is_object_id(comment_id@) && author is None
            ==> (r matches Err(e) && is_validation_error(e, "Comment not found"@)),
        !is_blank(req.comment@) && is_object_id(comment_id@) && author is Some && author->0@ != req.user_id@
            ==> (r matches Err(e) && is_validation_error(e, "You can only edit your own comments"@)),
        !is_blank(req.comment@) && is_object_id(comment_id@) && author is Some && author->0@ == req.user_id@ ==> r is Ok,
{
    if blank(req.comment.as_str()) {
        return Err(validation("Comment cannot be empty"));
    }
    match check_comment_found(comment_id, author.is_some()) {
        Err(e) => return Err(e),
        Ok(()) => {},
    }
    match author {
        Some(a) => if str_eq(a.as_str(), req.user_id.as_str()) {
            Ok(())
        } else {
            Err(validation("You can only edit your own comments"))
        },
        None => Err(validation("Comment not found")),
    }
}

/// Decides a deletion of a comment asked for by `requester`, given its
/// author (`None`: no such comment).
pub fn decide_comment_deletion(comment_id: &str, author: &Option<String>, requester: &str) -> (r: Result<(), AppError>)
    ensures
        !is_object_id(comment_id@) ==> (r matches Err(e) && is_validation_error(e, "Invalid comment ID"@)),
        is_object_id(comment_id@) && author is None ==> (r matches Err(e) && is_validation_error(e, "Comment not found"@)),
        is_object_id(comment_id@) && author is Some && author->0@ != requester@
            ==> (r matches Err(e) && is_validation_error(e, "You can only delete your own comments"@)),
        is_object_id(comment_id@) && author is Some && author->0@ == requester@ ==> r is Ok,
{
    match check_comment_found(comment_id, author.is_some()) {
        Err(e) => return Err(e),
        Ok(()) => {},
    }
    match author {
        Some(a) => if str_eq(a.as_str(), requester) {
            Ok(())
        } else {
            Err(validation("You can only delete your own comments"))
        },
        None => Err(validation("Comment not found")),
    }
}

/// How a comment list is sorted.
#[derive(Debug, Clone, Copy, PartialEq, Eq, Structural)]
pub enum CommentSort {
    /// Oldest first.
    Oldest,
    /// Most liked first, then newest.
    Likes,
    /// Most replied first, then newest.
    Replies,
    /// Newest first.
    Newest,
}

/// The sort a list request names: `oldest`, `likes`, `replies`, anything
/// else newest first.
pub fn comment_sort(s: &str) -> (r: CommentSort)
    ensures
        r == (if s@ == "oldest"@ {
            CommentSort::Oldest
        } else if s@ == "likes"@ {
            CommentSort::Likes
        } else if s@ == "replies"@ {
            CommentSort::Replies
        } else {
            CommentSort::Newest
        }),
{
    if str_eq(s, "oldest") {
        CommentSort::Oldest
    } else if str_eq(s, "likes") {
        CommentSort::Likes
    } else if str_eq(s, "replies") {
        CommentSort::Replies
    } else {
        CommentSort::Newest
    }
}

/// The page of a comment list: page 1 or later, between 1 and 100
/// comments.
pub fn comment_page(page: i64, limit: i64) -> (p: crate::posts::Page)
    ensures
        p == crate::posts::spec_page(Some(page), Some(limit)),
{
    crate::posts::page_of(Some(page), Some(limit))
}

/// Whom a new comment is announced to, and how.
#[derive(Debug, Clone)]
pub struct CommentNotices {
    /// The title of the notice to every other user.
    pub title: String,
    /// The body of that notice.
    pub body: String,
    /// The author of the comment replied to, and the title of their notice.
    pub parent_author: Option<(String, String)>,
    /// The post's author, and the title of their notice.
    pub post_owner: Option<(String, String)>,
}

/// The notices of a new comment by `commenter` (id and name) on a post by
/// `post_owner`, with `preview` its text as shown. A reply is announced as
/// such, naming the author replied to (`someone` when unknown); that
/// author, when known and not the commenter, gets a notice of their own;
/// the post's author, when not the commenter nor that author, gets one too.
pub fn comment_notices(
    commenter_id: &str,
    commenter_name: &str,
    preview: &str,
    is_reply: bool,
    parent_author: &Option<(String, String)>,
    post_owner: &str,
) -> (n: CommentNotices)
    ensures
        is_reply ==> n.title@ == "💬 "@ + commenter_name@ + " replied to a comment"@
            && n.body@ == "Replied to @"@ + match parent_author {
                Some(a) => a.1@,
                None => "someone"@,
            } + ": "@ + preview@,
        !is_reply ==> n.title@ == "💬 "@ + commenter_name@ + " commented on a post"@ && n.body@ == preview@,
        match parent_author {
            Some(a) => if a.0@ != commenter_id@ {
                n.parent_author matches Some(x) && x.0@ == a.0@ && x.1@ == "💬 "@ + commenter_name@ + " replied to your comment"@
            } else {
                n.parent_author is None
            },
            None => n.parent_author is None,
        },
        (post_owner@ != commenter_id@ && !(parent_author matches Some(a) && a.0@ == post_owner@)) ==> (n.post_owner matches Some(x)
            && x.0@ == post_owner@ && x.1@ == "💬 "@ + commenter_name@ + " commented on your post"@),
        !(post_owner@ != commenter_id@ && !(parent_author matches Some(a) && a.0@ == post_owner@)) ==> n.post_owner is None,
{
    let (title, body) = if is_reply {
        let mut t = concat("💬 ", commenter_name);
        t.append(" replied to a comment");
        let mut b = String::from_str("Replied to @");
        match parent_author {
            Some(a) => b.append(a.1.as_str()),
            None => b.append("someone"),
        }
        b.append(": ");
        b.append(preview);
        (t, b)
    } else {
        let mut t = concat("💬 ", commenter_name);
        t.append(" commented on a post");
        (t, String::from_str(preview))
    };
    let parent_notice = match parent_author {
        Some(a) => if !str_eq(a.0.as_str(), commenter_id) {
            let mut t = concat("💬 ", commenter_name);
            t.append(" replied to your comment");
            Some((a.0.clone(), t))
        } else {
            None
        },
        None => None,
    };
    let owner_is_parent = match parent_author {
        Some(a) => str_eq(a.0.as_str(), post_owner),
        None => false,
    };
    let owner_notice = if !str_eq(post_owner, commenter_id) && !owner_is_parent {
        let mut t = concat("💬 ", commenter_name);
        t.append(" commented on your post");
        Some((String::from_str(post_owner), t))
    } else {
        None
    };
    CommentNotices { title, body, parent_author: parent_notice, post_owner: owner_notice }
}

/// A comment's text as its notices show it: its first 100 bytes followed
/// by `...` when it is longer.
pub fn comment_preview(text: &str) -> (p: String)
    requires
        cuts_cleanly(text@, 100),
    ensures
        byte_len(text@) <= 100 ==> p@ == text@,
        byte_len(text@) > 100 ==> exists|k: int| 0 <= k <= text@.len() && byte_len(text@.take(k)) == 100
            && p@ == text@.take(k) + "..."@,
{
    preview_bytes(text, 100)
}

} // verus!
