//! NotificationAssembler's construction step: recover the inbound mail's
//! HTML body and subject, attach the stored images inline in listing
//! order under deterministic sequential names, and render the message for
//! the outbound transport.
//!
//! Parsing the inbound RFC5322 content and rendering the outbound message
//! are done by the mail crates behind trusted items; what the assembled
//! message holds — sender, subject, body, and the exact attachment
//! sequence — is verified here.

use vstd::prelude::*;

use crate::errors::AssembleError;
use crate::errors::EnvelopeError;
use crate::errors::SendError;
use crate::num::dec_str_nat;
use crate::num::u32_dec;

verus! {

/// What parsing recovers from inbound mail content.
pub struct MailModel {
    pub html: Option<Seq<char>>,
    pub subject: Option<Seq<char>>,
}

#[verifier::external_type_specification]
#[verifier::external_body]
pub struct ExMailMessage<'x>(mail_parser::Message<'x>);

/// What the mail parser recovers from a text: a function of the text
/// alone, or nothing when the text has no parsable headers.
pub uninterp spec fn mail_model_of(s: Seq<char>) -> Option<MailModel>;

/// The recovered parts a parsed message holds.
pub uninterp spec fn mail_view(m: mail_parser::Message) -> MailModel;

/// Relies on mail_parser::MessageParser::parse: what it recovers depends
/// on the content alone.
#[verifier::external_body]
fn parse_mail<'x>(content: &'x str) -> (r: Option<mail_parser::Message<'x>>)
    ensures
        r is Some <==> mail_model_of(content@) is Some,
        r matches Some(m) ==> mail_view(m) == mail_model_of(content@)->Some_0,
{
    mail_parser::MessageParser::new().parse(content)
}

/// Relies on mail_parser::Message::body_html at position 0.
#[verifier::external_body]
fn mail_html_body(m: &mail_parser::Message) -> (r: Option<String>)
    ensures
        r is Some <==> mail_view(*m).html is Some,
        r matches Some(h) ==> h@ == mail_view(*m).html->Some_0,
{
    m.body_html(0).map(|c| c.into_owned())
}

/// Relies on mail_parser::Message::subject.
#[verifier::external_body]
fn mail_subject(m: &mail_parser::Message) -> (r: Option<String>)
    ensures
        r is Some <==> mail_view(*m).subject is Some,
        r matches Some(s) ==> s@ == mail_view(*m).subject->Some_0,
{
    m.subject().map(|s| s.to_owned())
}

/// Recover the inbound mail's HTML body and subject from raw content.
/// Fails with `UnparsableMail` exactly when the content does not parse and
/// with `NoHtmlBody` exactly when the parsed mail has no HTML body.
pub fn mail_parts(content: &str) -> (r: Result<(String, Option<String>), EnvelopeError>)
    ensures
        match r {
            Ok((html, subject)) => mail_model_of(content@) matches Some(m) && m.html == Some(
                html@,
            ) && m.subject == match subject {
                Option::Some(s) => Some(s@),
                Option::None => None::<Seq<char>>,
            },
            Err(e) => match mail_model_of(content@) {
                Option::None => e == EnvelopeError::UnparsableMail,
                Option::Some(m) => m.html is None && e == EnvelopeError::NoHtmlBody,
            },
        },
{
    let parsed = match parse_mail(content) {
        Some(m) => m,
        None => {
            return Err(EnvelopeError::UnparsableMail);
        },
    };
    let html = match mail_html_body(&parsed) {
        Some(h) => h,
        None => {
            return Err(EnvelopeError::NoHtmlBody);
        },
    };
    let subject = mail_subject(&parsed);
    Ok((html, subject))
}

/// The parts of an assembled outbound message.
pub struct EmailModel {
    pub from: Option<Seq<char>>,
    pub subject: Option<Seq<char>>,
    pub html: Option<Seq<char>>,
    /// Inline attachments in order: content type, name, bytes.
    pub inlines: Seq<(Seq<char>, Seq<char>, Seq<u8>)>,
}

#[verifier::external_type_specification]
#[verifier::external_body]
pub struct ExMessageBuilder<'x>(mail_builder::MessageBuilder<'x>);

/// The parts an outbound message builder holds.
pub uninterp spec fn builder_view(b: mail_builder::MessageBuilder) -> EmailModel;

/// Whether `bytes` is a rendering of a message with the given parts. The
/// rendering also carries a generated message id and date, so it is not a
/// function of the parts; this only ties the output to the parts it was
/// rendered from.
pub uninterp spec fn rendered_from(bytes: Seq<u8>, parts: EmailModel) -> bool;

/// Relies on mail_builder::MessageBuilder::new: a builder with nothing
/// set.
#[verifier::external_body]
fn mb_new() -> (r: mail_builder::MessageBuilder<'static>)
    ensures
        builder_view(r) == (EmailModel {
            from: None,
            subject: None,
            html: None,
            inlines: Seq::empty(),
        }),
{
    mail_builder::MessageBuilder::new()
}

/// Relies on mail_builder::MessageBuilder::from: sets the From header.
#[verifier::external_body]
fn mb_from(b: mail_builder::MessageBuilder<'static>, addr: String) -> (r:
    mail_builder::MessageBuilder<'static>)
    ensures
        builder_view(r) == (EmailModel { from: Some(addr@), ..builder_view(b) }),
{
    b.from(addr)
}

/// Relies on mail_builder::MessageBuilder::subject: sets the Subject
/// header.
#[verifier::external_body]
fn mb_subject(b: mail_builder::MessageBuilder<'static>, s: String) -> (r:
    mail_builder::MessageBuilder<'static>)
    ensures
        builder_view(r) == (EmailModel { subject: Some(s@), ..builder_view(b) }),
{
    b.subject(s)
}

/// Relies on mail_builder::MessageBuilder::html_body: sets the HTML body.
#[verifier::external_body]
fn mb_html_body(b: mail_builder::MessageBuilder<'static>, h: String) -> (r:
    mail_builder::MessageBuilder<'static>)
    ensures
        builder_view(r) == (EmailModel { html: Some(h@), ..builder_view(b) }),
{
    b.html_body(h)
}

/// Relies on mail_builder::MessageBuilder::inline: appends one inline
/// binary attachment.
#[verifier::external_body]
fn mb_inline(
    b: mail_builder::MessageBuilder<'static>,
    content_type: String,
    name: String,
    bytes: Vec<u8>,
) -> (r: mail_builder::MessageBuilder<'static>)
    ensures
        builder_view(r) == (EmailModel {
            inlines: builder_view(b).inlines.push((content_type@, name@, bytes@)),
            ..builder_view(b)
        }),
{
    b.inline(content_type, name, bytes)
}

/// Relies on mail_builder::MessageBuilder::write_to_vec: renders the
/// RFC5322 message from the parts the builder holds. Rendering into a byte
/// vector cannot fail: the writer is infallible and the function returns
/// its output unconditionally.
#[verifier::external_body]
fn mb_render(b: mail_builder::MessageBuilder<'static>) -> (r: Result<Vec<u8>, String>)
    ensures
        r is Ok,
        r matches Ok(bytes) ==> rendered_from(bytes@, builder_view(b)),
{
    b.write_to_vec().map_err(|e| e.to_string())
}

/// The deterministic name of the `n`-th inline image, counted from 1.
pub open spec fn inline_name(n: int) -> Seq<char> {
    "image"@ + dec_str_nat(n as nat) + ".jpg"@
}

/// The inline attachment sequence of a notification: each image in
/// listing order, named `image1.jpg`, `image2.jpg`, and so on.
pub open spec fn inline_seq(images: Seq<Seq<u8>>) -> Seq<(Seq<char>, Seq<char>, Seq<u8>)> {
    Seq::new(images.len(), |i: int| ("image/jpg"@, inline_name(i + 1), images[i]))
}

/// An assembled outbound message: explicit sender, explicit recipients,
/// rendered bytes, and the parts they were rendered from.
pub struct AssembledEmail {
    pub from: String,
    pub to: Vec<String>,
    pub mime: Vec<u8>,
    pub parts: Ghost<EmailModel>,
}

/// Build the notification message: the recovered HTML body, the given
/// subject, and each image attached inline in order as `image<n>.jpg`.
/// Construction cannot fail.
pub fn assemble_email(
    html: String,
    subject: String,
    from: String,
    to: Vec<String>,
    images: Vec<Vec<u8>>,
) -> (a: AssembledEmail)
    requires
        to@.len() >= 1,
        images@.len() < 0x1_0000_0000,
    ensures
        a.from@ == from@,
        a.to.deep_view() == to.deep_view(),
        a.parts@ == (EmailModel {
            from: Some(from@),
            subject: Some(subject@),
            html: Some(html@),
            inlines: inline_seq(images.deep_view()),
        }),
        rendered_from(a.mime@, a.parts@),
{
    let mut b = mb_new();
    b = mb_from(b, from.clone());
    b = mb_subject(b, subject);
    b = mb_html_body(b, html);
    let ghost base = builder_view(b);
    let n = images.len();
    let mut x: usize = 0;
    let mut images = images;
    let ghost all = images.deep_view();
    proof {
        assert(inline_seq(all.subrange(0, 0)) =~= base.inlines);
    }
    while x < n
        invariant
            0 <= x <= n,
            n == all.len(),
            images.deep_view() == all,
            images@.len() == n,
            n < 0x1_0000_0000,
            builder_view(b) == (EmailModel {
                inlines: inline_seq(all.subrange(0, x as int)),
                ..base
            }),
        decreases n - x,
    {
        let ghost pre = builder_view(b);
        let bytes = images[x].clone();
        proof {
            assert(bytes@ =~= all[x as int]);
        }
        let num = u32_dec((x + 1) as u32);
        let name = "image".to_owned().concat(num.as_str()).concat(".jpg");
        proof {
            assert(name@ == inline_name(x as int + 1));
        }
        b = mb_inline(b, "image/jpg".to_owned(), name, bytes);
        proof {
            assert(builder_view(b).inlines =~= inline_seq(all.subrange(0, x as int + 1)));
            assert(builder_view(b) == (EmailModel {
                inlines: inline_seq(all.subrange(0, x as int + 1)),
                ..base
            }));
        }
        x = x + 1;
    }
    proof {
        assert(all.subrange(0, all.len() as int) =~= all);
        assert(inline_seq(all.subrange(0, n as int)) =~= inline_seq(all));
    }
    let ghost parts = builder_view(b);
    let mime = match mb_render(b) {
        Ok(m) => m,
        Err(_) => unreached(),
    };
    AssembledEmail { from, to, mime, parts: Ghost(parts) }
}

/// Index of the first `,` at or after `a`, or the end of the text.
pub open spec fn first_comma(s: Seq<char>, a: int) -> int
    decreases s.len() - a,
{
    if a < 0 || a >= s.len() {
        s.len() as int
    } else if s[a] == ',' {
        a
    } else {
        first_comma(s, a + 1)
    }
}

/// The first comma at or after a position within the text lies between
/// them and the end.
proof fn lemma_first_comma_bounds(s: Seq<char>, a: int)
    requires
        0 <= a <= s.len(),
    ensures
        a <= first_comma(s, a) <= s.len(),
    decreases s.len() - a,
{
    if a < s.len() && s[a] != ',' {
        lemma_first_comma_bounds(s, a + 1);
    }
}

/// `first_comma` is reached by a forward scan.
proof fn lemma_first_comma_at(s: Seq<char>, a: int, b: int)
    requires
        0 <= a <= b <= s.len(),
        forall|t: int| a <= t < b ==> s[t] != ',',
        b < s.len() ==> s[b] == ',',
    ensures
        first_comma(s, a) == b,
    decreases b - a,
{
    if a < b {
        lemma_first_comma_at(s, a + 1, b);
    }
}

/// The comma-separated pieces of a text, commas kept out, empty pieces
/// kept in.
pub open spec fn split_commas(s: Seq<char>) -> Seq<Seq<char>>
    decreases s.len(),
    via split_commas_dec
{
    let i = first_comma(s, 0);
    if i == s.len() {
        seq![s]
    } else {
        seq![s.subrange(0, i)] + split_commas(s.subrange(i + 1, s.len() as int))
    }
}

#[via_fn]
proof fn split_commas_dec(s: Seq<char>) {
    lemma_first_comma_bounds(s, 0);
}

/// Split a configured recipient list on commas.
pub fn split_recipients(s: &str) -> (r: Vec<String>)
    ensures
        r.deep_view() == split_commas(s@),
{
    let n = s.unicode_len();
    let mut out: Vec<String> = Vec::new();
    let mut start: usize = 0;
    let mut k: usize = 0;
    proof {
        assert(s@.skip(0) =~= s@);
        assert(out.deep_view() + split_commas(s@) =~= split_commas(s@));
    }
    while k < n
        invariant
            0 <= start <= k <= n,
            n == s@.len(),
            forall|t: int| start <= t < k ==> s@[t] != ',',
            out.deep_view() + split_commas(s@.skip(start as int)) == split_commas(s@),
        decreases n - k,
    {
        if s.get_char(k) == ',' {
            let ghost tail = s@.skip(start as int);
            let ghost pre = out.deep_view();
            let piece = s.substring_char(start, k);
            out.push(piece.to_owned());
            proof {
                assert forall|t: int| 0 <= t < k - start implies tail[t] != ',' by {
                    assert(tail[t] == s@[start + t]);
                }
                assert(tail[k - start as int] == ',');
                lemma_first_comma_at(tail, 0, k - start as int);
                assert(tail.subrange(0, k - start as int) =~= s@.subrange(start as int, k as int));
                assert(tail.subrange(k - start as int + 1, tail.len() as int) =~= s@.skip(
                    k as int + 1,
                ));
                assert(out.deep_view() =~= pre.push(piece@));
                assert(pre + (seq![piece@] + split_commas(s@.skip(k as int + 1)))
                    =~= out.deep_view() + split_commas(s@.skip(k as int + 1)));
            }
            start = k + 1;
        }
        k = k + 1;
    }
    let ghost tail = s@.skip(start as int);
    let last = s.substring_char(start, n);
    out.push(last.to_owned());
    proof {
        assert forall|t: int| 0 <= t < tail.len() implies tail[t] != ',' by {
            assert(tail[t] == s@[start + t]);
        }
        lemma_first_comma_at(tail, 0, tail.len() as int);
        assert(last@ =~= tail);
        assert(out.deep_view() =~= out.deep_view().drop_last().push(tail));
        assert(out.deep_view().drop_last() + seq![tail] =~= out.deep_view());
    }
    out
}

/// The pieces that are addresses: the nonempty ones, in order.
pub open spec fn keep_nonempty(ps: Seq<Seq<char>>) -> Seq<Seq<char>>
    decreases ps.len(),
{
    if ps.len() == 0 {
        Seq::empty()
    } else if ps[0].len() > 0 {
        seq![ps[0]] + keep_nonempty(ps.drop_first())
    } else {
        keep_nonempty(ps.drop_first())
    }
}

/// The discrete addresses of a configured recipient list: its
/// comma-separated nonempty pieces.
pub open spec fn recipients_of(s: Seq<char>) -> Seq<Seq<char>> {
    keep_nonempty(split_commas(s))
}

/// Parse the configured recipient list into discrete addresses; at least
/// one is required, and `NoRecipients` comes exactly when none remains.
pub fn parse_recipients(s: &str) -> (r: Result<Vec<String>, SendError>)
    ensures
        match r {
            Ok(v) => v.deep_view() == recipients_of(s@) && v@.len() >= 1,
            Err(e) => recipients_of(s@).len() == 0 && e == SendError::NoRecipients,
        },
{
    let pieces = split_recipients(s);
    let ghost all = pieces.deep_view();
    let mut out: Vec<String> = Vec::new();
    let mut x: usize = 0;
    proof {
        assert(all.skip(0) =~= all);
        assert(out.deep_view() + keep_nonempty(all) =~= keep_nonempty(all));
    }
    while x < pieces.len()
        invariant
            0 <= x <= all.len(),
            pieces.deep_view() == all,
            pieces@.len() == all.len(),
            out.deep_view() + keep_nonempty(all.skip(x as int)) == keep_nonempty(all),
        decreases all.len() - x,
    {
        let ghost tail = all.skip(x as int);
        let ghost pre = out.deep_view();
        proof {
            assert(tail[0] == all[x as int]);
            assert(tail.drop_first() =~= all.skip(x as int + 1));
        }
        if !pieces[x].as_str().is_empty() {
            out.push(pieces[x].clone());
            proof {
                assert(out.deep_view() =~= pre.push(all[x as int]));
                assert(pre + (seq![all[x as int]] + keep_nonempty(all.skip(x as int + 1)))
                    =~= out.deep_view() + keep_nonempty(all.skip(x as int + 1)));
            }
        }
        x = x + 1;
    }
    proof {
        assert(all.skip(all.len() as int).len() == 0);
        assert(out.deep_view() + Seq::<Seq<char>>::empty() =~= out.deep_view());
    }
    if out.len() == 0 {
        Err(SendError::NoRecipients)
    } else {
        Ok(out)
    }
}

/// The subject the notification carries: the inbound mail's own, or the
/// default when it has none.
pub open spec fn chosen_subject(m: MailModel) -> Seq<char> {
    match m.subject {
        Some(s) => s,
        None => "Hemnet slutpris"@,
    }
}

/// Prepare the notification message: recover the inbound mail's HTML body
/// and subject (the default subject standing in when it has none), parse
/// the configured recipient list, and attach the stored images inline in
/// listing order as `image1.jpg`, `image2.jpg`, and so on. Succeeds on
/// exactly the contents that parse with an HTML body when at least one
/// recipient is configured.
pub fn prepare_notification(content: &str, from: &str, to_cfg: &str, images: Vec<Vec<u8>>) -> (r:
    Result<AssembledEmail, AssembleError>)
    requires
        images@.len() < 0x1_0000_0000,
    ensures
        (mail_model_of(content@) matches Some(m) && m.html is Some && recipients_of(
            to_cfg@,
        ).len() >= 1) ==> r is Ok,
        match r {
            Ok(a) => {
                &&& mail_model_of(content@) matches Some(m) && m.html is Some && a.parts@ == (
                EmailModel {
                    from: Some(from@),
                    subject: Some(chosen_subject(m)),
                    html: m.html,
                    inlines: inline_seq(images.deep_view()),
                })
                &&& a.from@ == from@
                &&& a.to.deep_view() == recipients_of(to_cfg@)
                &&& recipients_of(to_cfg@).len() >= 1
                &&& rendered_from(a.mime@, a.parts@)
            },
            Err(AssembleError::Mail(e)) => match mail_model_of(content@) {
                Option::None => e == EnvelopeError::UnparsableMail,
                Option::Some(m) => m.html is None && e == EnvelopeError::NoHtmlBody,
            },
            Err(AssembleError::Send(e)) => recipients_of(to_cfg@).len() == 0 && e
                == SendError::NoRecipients,
        },
{
    let (html, subject) = match mail_parts(content) {
        Ok(p) => p,
        Err(e) => {
            return Err(AssembleError::Mail(e));
        },
    };
    let to = match parse_recipients(to_cfg) {
        Ok(v) => v,
        Err(e) => {
            return Err(AssembleError::Send(e));
        },
    };
    let subject = match subject {
        Some(s) => s,
        None => "Hemnet slutpris".to_owned(),
    };
    Ok(assemble_email(html, subject, from.to_owned(), to, images))
}

/// Law: a two-image notification carries exactly two inline attachments,
/// `image1.jpg` then `image2.jpg`, with the first and second image's bytes
/// respectively.
pub proof fn lemma_two_inline_attachments(b1: Seq<u8>, b2: Seq<u8>)
    ensures
        inline_seq(seq![b1, b2]).len() == 2,
        inline_seq(seq![b1, b2])[0] == ("image/jpg"@, "image1.jpg"@, b1),
        inline_seq(seq![b1, b2])[1] == ("image/jpg"@, "image2.jpg"@, b2),
{
    reveal_strlit("image");
    reveal_strlit(".jpg");
    reveal_strlit("image1.jpg");
    reveal_strlit("image2.jpg");
    assert(inline_name(1) =~= "image1.jpg"@);
    assert(inline_name(2) =~= "image2.jpg"@);
}

} // verus!
