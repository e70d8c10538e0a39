//! The text of a notification, as the viewers' pages take it apart.
//!
//! A notification is one line of text made of segments, each closed by a
//! comma. The first segment names the user and carries the user's message.
//! Every further segment carries one line of the answer, most often a post
//! as its key, a bar and its value, and ends in a blank before its comma.

use vstd::prelude::*;
use vstd::string::*;
use crate::repository::{posts_view, Post};
use crate::text::{append_decimal, decimal};

verus! {

/// How the first segment of a notification names the user.
#[derive(Clone, Copy, Debug, PartialEq, Eq)]
pub enum Heading {
    /// `User#` and the number: for what a user says, and for a status.
    Plain,
    /// `User::User#` and the number: for a deletion, and for a commit.
    Qualified,
}

/// The text with which a heading begins.
pub open spec fn heading_text(heading: Heading) -> Seq<char> {
    match heading {
        Heading::Plain => "User#"@,
        Heading::Qualified => "User::User#"@,
    }
}

/// The line of a post: its key, a bar, its value.
pub open spec fn post_line_text(post: (Seq<char>, Seq<char>)) -> Seq<char> {
    post.0 + "|"@ + post.1
}

/// The segments of the lines `lines`: each line, a blank and a comma.
pub open spec fn segments_text(lines: Seq<Seq<char>>) -> Seq<char>
    decreases lines.len(),
{
    if lines.len() == 0 {
        Seq::empty()
    } else {
        segments_text(lines.drop_last()) + lines.last() + " ,"@
    }
}

/// The text of a notification: the heading, the number of the user in
/// decimal, a colon and a blank, the message, a comma, and the segments of
/// the lines.
pub open spec fn notification_text(
    heading: Heading,
    user: nat,
    message: Seq<char>,
    lines: Seq<Seq<char>>,
) -> Seq<char> {
    heading_text(heading) + decimal(user) + ": "@ + message + ","@ + segments_text(lines)
}

/// The texts of `lines`.
pub open spec fn lines_view(lines: Seq<String>) -> Seq<Seq<char>> {
    lines.map_values(|line: String| line@)
}

/// The line of `post`.
pub fn post_line(post: &Post) -> (line: String)
    ensures
        line@ == post_line_text(post@),
{
    let mut line = String::from_str(post.key.as_str());
    line.append("|");
    line.append(post.value.as_str());
    line
}

/// The lines of `posts`, in their order.
pub fn post_lines(posts: &Vec<Post>) -> (lines: Vec<String>)
    ensures
        lines_view(lines@) == posts_view(posts@).map_values(
            |post: (Seq<char>, Seq<char>)| post_line_text(post),
        ),
{
    let mut lines: Vec<String> = Vec::new();
    let mut i: usize = 0;
    while i < posts.len()
        invariant
            i <= posts@.len(),
            lines@.len() == i,
            forall|j: int| 0 <= j < i ==> (#[trigger] lines@[j])@ == post_line_text(posts@[j]@),
        decreases posts@.len() - i,
    {
        lines.push(post_line(&posts[i]));
        i = i + 1;
    }
    assert(lines_view(lines@) =~= posts_view(posts@).map_values(
        |post: (Seq<char>, Seq<char>)| post_line_text(post),
    ));
    lines
}

/// Writes the notification that tells the viewers what user number `user`
/// said in `message`, and the lines `lines` that answer it.
pub fn format_notification(heading: Heading, user: usize, message: &str, lines: &Vec<String>) -> (text:
    String)
    ensures
        text@ == notification_text(heading, user as nat, message@, lines_view(lines@)),
{
    let mut text = match heading {
        Heading::Plain => String::from_str("User#"),
        Heading::Qualified => String::from_str("User::User#"),
    };
    append_decimal(&mut text, user);
    text.append(": ");
    text.append(message);
    text.append(",");
    let ghost head = text@;
    let mut i: usize = 0;
    while i < lines.len()
        invariant
            i <= lines@.len(),
            text@ == head + segments_text(lines_view(lines@).take(i as int)),
        decreases lines@.len() - i,
    {
        text.append(lines[i].as_str());
        text.append(" ,");
        i = i + 1;
        proof {
            let all = lines_view(lines@);
            assert(all.take(i as int).drop_last() =~= all.take(i - 1));
            assert(all.take(i as int).last() == lines@[i - 1]@);
            assert(text@ =~= head + segments_text(all.take(i as int)));
        }
    }
    assert(lines_view(lines@).take(lines@.len() as int) =~= lines_view(lines@));
    text
}

} // verus!
