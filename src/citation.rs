use serenity::model::id::UserId;
use serenity::model::misc::Mentionable;
use vstd::prelude::*;

verus! {

pub open spec fn digit_char(d: nat) -> char {
    if d == 0 {
        '0'
    } else if d == 1 {
        '1'
    } else if d == 2 {
        '2'
    } else if d == 3 {
        '3'
    } else if d == 4 {
        '4'
    } else if d == 5 {
        '5'
    } else if d == 6 {
        '6'
    } else if d == 7 {
        '7'
    } else if d == 8 {
        '8'
    } else {
        '9'
    }
}

/// Decimal digits of `n`, without leading zeros.
pub open spec fn decimal(n: nat) -> Seq<char>
    decreases n,
{
    if n < 10 {
        seq![digit_char(n)]
    } else {
        decimal(n / 10).push(digit_char(n % 10))
    }
}

/// The chat markup that mentions a user: `<@id>`.
pub open spec fn user_mention(id: u64) -> Seq<char> {
    seq!['<', '@'] + decimal(id as nat) + seq!['>']
}

/// One line per attachment URL, each preceded by a line break.
pub open spec fn attachment_lines(urls: Seq<String>) -> Seq<char>
    decreases urls.len(),
{
    if urls.len() == 0 {
        Seq::empty()
    } else {
        attachment_lines(urls.drop_last()) + seq!['\n'] + urls.last()@
    }
}

/// The text posted in the destination channel for a tagged message.
pub open spec fn citation(
    author_id: u64,
    tagger_id: u64,
    content: Seq<char>,
    urls: Seq<String>,
) -> Seq<char> {
    user_mention(author_id) + " says (tagged by "@ + user_mention(tagger_id) + ")\n> "@ + content
        + attachment_lines(urls)
}

/// Relies on serenity's `Mentionable::mention` for `UserId`, which is
/// `format!("<@{}>", id)`.
#[verifier::external_body]
fn mention(id: u64) -> (r: String)
    ensures
        r@ == user_mention(id),
{
    UserId(id).mention()
}

/// Builds the citation of a message by `author_id`, tagged by `tagger_id`:
/// both mentioned, the content quoted, then each attachment URL on its own line.
pub fn citation_text(author_id: u64, tagger_id: u64, content: &String, urls: &Vec<String>) -> (r:
    String)
    ensures
        r@ == citation(author_id, tagger_id, content@, urls@),
{
    let mut text = mention(author_id);
    text.append(" says (tagged by ");
    let tagger = mention(tagger_id);
    text.append(tagger.as_str());
    text.append(")\n> ");
    text.append(content.as_str());
    let ghost head = text@;
    let mut i: usize = 0;
    while i < urls.len()
        invariant
            i <= urls.len(),
            text@ == head + attachment_lines(urls@.take(i as int)),
        decreases urls.len() - i,
    {
        text.append("\n");
        text.append(urls[i].as_str());
        proof {
            reveal_strlit("\n");
            assert(urls@.take(i + 1).drop_last() =~= urls@.take(i as int));
        }
        i = i + 1;
    }
    assert(urls@.take(urls@.len() as int) =~= urls@);
    text
}

} // verus!
