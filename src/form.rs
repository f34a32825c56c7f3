//! The form decoder: `key=value` pairs joined by `&` into a contact message.

use vstd::prelude::*;
use vstd::slice::slice_to_vec;
use vstd::utf8::valid_utf8;
use crate::bytes::{
    is_utf8, lacks, lemma_ascii_utf8, lemma_split_on_byte, lemma_split_on_lacking,
    lemma_split_once_at_byte, lemma_trim_unchanged, split_bytes, split_on, split_once,
    split_once_bytes, trim, trim_bytes,
};
use crate::error::{Error, FormField};
use crate::header::{all_split, find_field, lookup, pair_views, trimmed_pairs};

verus! {

/// The pair separator `&`.
pub open spec fn ampersand() -> Seq<u8> {
    seq![38u8]
}

/// The key/value separator `=`.
pub open spec fn equals_sign() -> Seq<u8> {
    seq![61u8]
}

/// The form key of each field: `email`, `surname`, `last_name`,
/// `subject`, `content`.
pub open spec fn field_name(f: FormField) -> Seq<u8> {
    match f {
        FormField::Email => seq![101u8, 109u8, 97u8, 105u8, 108u8],
        FormField::Surname => seq![115u8, 117u8, 114u8, 110u8, 97u8, 109u8, 101u8],
        FormField::LastName => seq![108u8, 97u8, 115u8, 116u8, 95u8, 110u8, 97u8, 109u8, 101u8],
        FormField::Subject => seq![115u8, 117u8, 98u8, 106u8, 101u8, 99u8, 116u8],
        FormField::Content => seq![99u8, 111u8, 110u8, 116u8, 101u8, 110u8, 116u8],
    }
}

/// The contents of a contact message.
pub struct ContactFields {
    pub email: Seq<u8>,
    pub surname: Seq<u8>,
    pub last_name: Seq<u8>,
    pub subject: Seq<u8>,
    pub content: Seq<u8>,
}

/// The contact message that decoded form pairs describe: each field takes
/// the value of the last pair with its key; the first field in the order
/// email, surname, last_name, subject, content that has no pair is reported
/// missing.
pub open spec fn message_from(pairs: Seq<(Seq<u8>, Seq<u8>)>) -> Result<ContactFields, Error> {
    if lookup(pairs, field_name(FormField::Email)) is None {
        Err(Error::MissingField(FormField::Email))
    } else if lookup(pairs, field_name(FormField::Surname)) is None {
        Err(Error::MissingField(FormField::Surname))
    } else if lookup(pairs, field_name(FormField::LastName)) is None {
        Err(Error::MissingField(FormField::LastName))
    } else if lookup(pairs, field_name(FormField::Subject)) is None {
        Err(Error::MissingField(FormField::Subject))
    } else if lookup(pairs, field_name(FormField::Content)) is None {
        Err(Error::MissingField(FormField::Content))
    } else {
        Ok(
            ContactFields {
                email: lookup(pairs, field_name(FormField::Email))->0,
                surname: lookup(pairs, field_name(FormField::Surname))->0,
                last_name: lookup(pairs, field_name(FormField::LastName))->0,
                subject: lookup(pairs, field_name(FormField::Subject))->0,
                content: lookup(pairs, field_name(FormField::Content))->0,
            },
        )
    }
}

/// What body bytes decode to: each piece between `&` cut at its first `=`,
/// key and value trimmed, then gathered into a contact message.
pub open spec fn parse_form(body: Seq<u8>) -> Result<ContactFields, Error> {
    let pairs = split_on(body, ampersand());
    if !valid_utf8(body) {
        Err(Error::Encoding)
    } else if !all_split(pairs, equals_sign()) {
        Err(Error::MalformedField)
    } else {
        message_from(trimmed_pairs(pairs, equals_sign()))
    }
}

/// A contact-form submission.
#[derive(Debug, Clone, PartialEq, Eq)]
pub struct HttpMessage {
    pub email: Vec<u8>,
    pub surname: Vec<u8>,
    pub last_name: Vec<u8>,
    pub subject: Vec<u8>,
    pub content: Vec<u8>,
}

impl View for HttpMessage {
    type V = ContactFields;

    open spec fn view(&self) -> ContactFields {
        ContactFields {
            email: self.email@,
            surname: self.surname@,
            last_name: self.last_name@,
            subject: self.subject@,
            content: self.content@,
        }
    }
}

/// A copy of the value of the last pair named after `f`.
fn required(fields: &Vec<(Vec<u8>, Vec<u8>)>, f: FormField) -> (r: Result<Vec<u8>, Error>)
    ensures
        match lookup(pair_views(fields@), field_name(f)) {
            Some(v) => r matches Ok(w) && w@ == v,
            None => r == Err::<Vec<u8>, Error>(Error::MissingField(f)),
        },
{
    let found = match f {
        FormField::Email => {
            let name: [u8; 5] = [101, 109, 97, 105, 108];
            assert(name@ =~= field_name(f));
            find_field(fields, &name)
        },
        FormField::Surname => {
            let name: [u8; 7] = [115, 117, 114, 110, 97, 109, 101];
            assert(name@ =~= field_name(f));
            find_field(fields, &name)
        },
        FormField::LastName => {
            let name: [u8; 9] = [108, 97, 115, 116, 95, 110, 97, 109, 101];
            assert(name@ =~= field_name(f));
            find_field(fields, &name)
        },
        FormField::Subject => {
            let name: [u8; 7] = [115, 117, 98, 106, 101, 99, 116];
            assert(name@ =~= field_name(f));
            find_field(fields, &name)
        },
        FormField::Content => {
            let name: [u8; 7] = [99, 111, 110, 116, 101, 110, 116];
            assert(name@ =~= field_name(f));
            find_field(fields, &name)
        },
    };
    match found {
        Some(v) => Ok(slice_to_vec(v.as_slice())),
        None => Err(Error::MissingField(f)),
    }
}

impl HttpMessage {
    /// Builds the message from decoded `(key, value)` pairs.
    pub fn from(fields: &Vec<(Vec<u8>, Vec<u8>)>) -> (r: Result<HttpMessage, Error>)
        ensures
            match r {
                Ok(m) => message_from(pair_views(fields@)) == Ok::<ContactFields, Error>(m@),
                Err(e) => message_from(pair_views(fields@)) == Err::<ContactFields, Error>(e),
            },
    {
        let email = match required(fields, FormField::Email) {
            Ok(v) => v,
            Err(e) => return Err(e),
        };
        let surname = match required(fields, FormField::Surname) {
            Ok(v) => v,
            Err(e) => return Err(e),
        };
        let last_name = match required(fields, FormField::LastName) {
            Ok(v) => v,
            Err(e) => return Err(e),
        };
        let subject = match required(fields, FormField::Subject) {
            Ok(v) => v,
            Err(e) => return Err(e),
        };
        let content = match required(fields, FormField::Content) {
            Ok(v) => v,
            Err(e) => return Err(e),
        };
        Ok(HttpMessage { email, surname, last_name, subject, content })
    }
}

/// Decodes a form body into a contact message.
pub fn split_body_from(msg: Vec<u8>) -> (r: Result<HttpMessage, Error>)
    ensures
        match r {
            Ok(m) => parse_form(msg@) == Ok::<ContactFields, Error>(m@),
            Err(e) => parse_form(msg@) == Err::<ContactFields, Error>(e),
        },
{
    if !is_utf8(msg.as_slice()) {
        return Err(Error::Encoding);
    }
    let amp: [u8; 1] = [38];
    assert(amp@ =~= ampersand());
    let eq: [u8; 1] = [61];
    assert(eq@ =~= equals_sign());
    let pieces = split_bytes(msg.as_slice(), &amp);
    let ghost all = crate::bytes::views(pieces@);
    let mut fields: Vec<(Vec<u8>, Vec<u8>)> = Vec::new();
    let mut i: usize = 0;
    while i < pieces.len()
        invariant
            i <= pieces@.len(),
            all == crate::bytes::views(pieces@),
            all == split_on(msg@, ampersand()),
            eq@ == equals_sign(),
            valid_utf8(msg@),
            forall|j: int| 0 <= j < i ==> (#[trigger] split_once(all[j], equals_sign())) is Some,
            pair_views(fields@) == trimmed_pairs(all.take(i as int), equals_sign()),
        decreases pieces@.len() - i,
    {
        assert(all[i as int] == pieces@[i as int]@);
        match split_once_bytes(pieces[i].as_slice(), &eq) {
            Some((k, v)) => {
                let key = trim_bytes(k.as_slice());
                let value = trim_bytes(v.as_slice());
                let ghost before = fields@;
                fields.push((key, value));
                assert(pair_views(fields@) =~= pair_views(before) + seq![(trim(k@), trim(v@))]);
                assert(trimmed_pairs(all.take(i + 1), equals_sign()) =~= trimmed_pairs(
                    all.take(i as int),
                    equals_sign(),
                ) + seq![(trim(k@), trim(v@))]);
            },
            None => {
                assert(!all_split(all, equals_sign()));
                return Err(Error::MalformedField);
            },
        }
        i = i + 1;
    }
    assert(all.take(i as int) =~= all);
    HttpMessage::from(&fields)
}

/// One `key=value` pair of a form body.
pub open spec fn form_pair(f: FormField, v: Seq<u8>) -> Seq<u8> {
    field_name(f) + equals_sign() + v
}

/// The form body that carries a contact message: its five pairs, in field
/// order, joined by `&`.
pub open spec fn encode_form(m: ContactFields) -> Seq<u8> {
    form_pair(FormField::Email, m.email) + ampersand() + form_pair(FormField::Surname, m.surname)
        + ampersand() + form_pair(FormField::LastName, m.last_name) + ampersand() + form_pair(
        FormField::Subject,
        m.subject,
    ) + ampersand() + form_pair(FormField::Content, m.content)
}

/// A value that survives encoding: valid UTF-8, without `&` or `=`, and
/// without surrounding whitespace.
pub open spec fn plain_value(v: Seq<u8>) -> bool {
    &&& valid_utf8(v)
    &&& lacks(v, 38)
    &&& lacks(v, 61)
    &&& trim(v) == v
}

/// Appends `name=value` to `out`.
fn push_pair(out: &mut Vec<u8>, name: &[u8], value: &[u8])
    ensures
        final(out)@ == old(out)@ + name@ + equals_sign() + value@,
{
    let mut pair = crate::bytes::concat3(name, &[61u8], value);
    out.append(&mut pair);
    assert(final(out)@ =~= old(out)@ + name@ + equals_sign() + value@);
}

impl HttpMessage {
    /// The form body that carries this message.
    pub fn to_form(&self) -> (r: Vec<u8>)
        ensures
            r@ == encode_form(self@),
    {
        let mut out: Vec<u8> = Vec::new();
        let email: [u8; 5] = [101, 109, 97, 105, 108];
        let surname: [u8; 7] = [115, 117, 114, 110, 97, 109, 101];
        let last_name: [u8; 9] = [108, 97, 115, 116, 95, 110, 97, 109, 101];
        let subject: [u8; 7] = [115, 117, 98, 106, 101, 99, 116];
        let content: [u8; 7] = [99, 111, 110, 116, 101, 110, 116];
        assert(email@ =~= field_name(FormField::Email));
        assert(surname@ =~= field_name(FormField::Surname));
        assert(last_name@ =~= field_name(FormField::LastName));
        assert(subject@ =~= field_name(FormField::Subject));
        assert(content@ =~= field_name(FormField::Content));
        push_pair(&mut out, &email, self.email.as_slice());
        out.push(38);
        push_pair(&mut out, &surname, self.surname.as_slice());
        out.push(38);
        push_pair(&mut out, &last_name, self.last_name.as_slice());
        out.push(38);
        push_pair(&mut out, &subject, self.subject.as_slice());
        out.push(38);
        push_pair(&mut out, &content, self.content.as_slice());
        assert(out@ =~= encode_form(self@));
        out
    }
}

/// Field names are made of lower-case letters and `_`.
proof fn lemma_name_bytes(f: FormField)
    ensures
        field_name(f).len() > 0,
        forall|i: int|
            0 <= i < field_name(f).len() ==> 95 <= #[trigger] field_name(f)[i] && field_name(f)[i]
                <= 122,
{
    let n = field_name(f);
    assert forall|i: int| 0 <= i < n.len() implies 95 <= #[trigger] n[i] && n[i] <= 122 by {
        if i == 0 {
        } else if i == 1 {
        } else if i == 2 {
        } else if i == 3 {
        } else if i == 4 {
        } else if i == 5 {
        } else if i == 6 {
        } else if i == 7 {
        } else {
        }
    }
}

/// No two fields share a name.
proof fn lemma_names_distinct()
    ensures
        forall|a: FormField, b: FormField| a != b ==> field_name(a) != field_name(b),
{
    assert(field_name(FormField::Surname)[2] != field_name(FormField::Subject)[2]);
    assert(field_name(FormField::Surname)[0] != field_name(FormField::Content)[0]);
    assert(field_name(FormField::Subject)[0] != field_name(FormField::Content)[0]);
}

/// A pair whose value is plain cuts back into its name and value, holds no
/// `&`, and is valid UTF-8.
proof fn lemma_pair(f: FormField, v: Seq<u8>)
    requires
        plain_value(v),
    ensures
        lacks(form_pair(f, v), 38),
        valid_utf8(form_pair(f, v)),
        split_once(form_pair(f, v), equals_sign()) == Some((field_name(f), v)),
        trim(field_name(f)) == field_name(f),
{
    let n = field_name(f);
    lemma_name_bytes(f);
    lemma_ascii_utf8(n + equals_sign());
    vstd::utf8::valid_utf8_concat(n + equals_sign(), v);
    lemma_split_once_at_byte(n, 61, v);
    lemma_trim_unchanged(n);
    let p = form_pair(f, v);
    assert forall|i: int| 0 <= i < p.len() implies p[i] != 38 by {
        if i >= n.len() + 1 {
            assert(p[i] == v[i - n.len() - 1]);
        }
    }
}

/// Looking a key up after one more pair: that pair when its name is the
/// key, else what was there before.
proof fn lemma_lookup_push(ps: Seq<(Seq<u8>, Seq<u8>)>, k: Seq<u8>, v: Seq<u8>, key: Seq<u8>)
    ensures
        lookup(ps.push((k, v)), key) == if k == key {
            Some(v)
        } else {
            lookup(ps, key)
        },
{
    assert(ps.push((k, v)).drop_last() =~= ps);
}

/// Encoding a contact message whose values are plain and decoding the
/// result gives the message back.
pub proof fn lemma_form_round_trip(m: ContactFields)
    requires
        plain_value(m.email),
        plain_value(m.surname),
        plain_value(m.last_name),
        plain_value(m.subject),
        plain_value(m.content),
    ensures
        parse_form(encode_form(m)) == Ok::<ContactFields, Error>(m),
{
    let email_pair = form_pair(FormField::Email, m.email);
    let surname_pair = form_pair(FormField::Surname, m.surname);
    let last_name_pair = form_pair(FormField::LastName, m.last_name);
    let subject_pair = form_pair(FormField::Subject, m.subject);
    let content_pair = form_pair(FormField::Content, m.content);
    lemma_pair(FormField::Email, m.email);
    lemma_pair(FormField::Surname, m.surname);
    lemma_pair(FormField::LastName, m.last_name);
    lemma_pair(FormField::Subject, m.subject);
    lemma_pair(FormField::Content, m.content);
    let amp = ampersand();
    let from_subject = subject_pair + amp + content_pair;
    let from_last_name = last_name_pair + amp + from_subject;
    let from_surname = surname_pair + amp + from_last_name;
    let body = encode_form(m);
    assert(body =~= email_pair + amp + from_surname);
    lemma_split_on_byte(email_pair, 38, from_surname);
    lemma_split_on_byte(surname_pair, 38, from_last_name);
    lemma_split_on_byte(last_name_pair, 38, from_subject);
    lemma_split_on_byte(subject_pair, 38, content_pair);
    lemma_split_on_lacking(content_pair, 38);
    let pieces = split_on(body, amp);
    assert(pieces =~= seq![email_pair, surname_pair, last_name_pair, subject_pair, content_pair]);
    lemma_ascii_utf8(amp);
    vstd::utf8::valid_utf8_concat(subject_pair, amp);
    vstd::utf8::valid_utf8_concat(subject_pair + amp, content_pair);
    vstd::utf8::valid_utf8_concat(last_name_pair, amp);
    vstd::utf8::valid_utf8_concat(last_name_pair + amp, from_subject);
    vstd::utf8::valid_utf8_concat(surname_pair, amp);
    vstd::utf8::valid_utf8_concat(surname_pair + amp, from_last_name);
    vstd::utf8::valid_utf8_concat(email_pair, amp);
    vstd::utf8::valid_utf8_concat(email_pair + amp, from_surname);
    assert(valid_utf8(body));
    assert(all_split(pieces, equals_sign()));
    let e = Seq::<(Seq<u8>, Seq<u8>)>::empty();
    let q1 = e.push((field_name(FormField::Email), m.email));
    let q2 = q1.push((field_name(FormField::Surname), m.surname));
    let q3 = q2.push((field_name(FormField::LastName), m.last_name));
    let q4 = q3.push((field_name(FormField::Subject), m.subject));
    let q5 = q4.push((field_name(FormField::Content), m.content));
    assert(trimmed_pairs(pieces, equals_sign()) =~= q5);
    lemma_names_distinct();
    assert forall|f: FormField| lookup(q5, field_name(f)) == Some(
        match f {
            FormField::Email => m.email,
            FormField::Surname => m.surname,
            FormField::LastName => m.last_name,
            FormField::Subject => m.subject,
            FormField::Content => m.content,
        },
    ) by {
        lemma_lookup_push(e, field_name(FormField::Email), m.email, field_name(f));
        lemma_lookup_push(q1, field_name(FormField::Surname), m.surname, field_name(f));
        lemma_lookup_push(q2, field_name(FormField::LastName), m.last_name, field_name(f));
        lemma_lookup_push(q3, field_name(FormField::Subject), m.subject, field_name(f));
        lemma_lookup_push(q4, field_name(FormField::Content), m.content, field_name(f));
    }
    assert(lookup(q5, field_name(FormField::Email)) == Some(m.email));
    assert(lookup(q5, field_name(FormField::Surname)) == Some(m.surname));
    assert(lookup(q5, field_name(FormField::LastName)) == Some(m.last_name));
    assert(lookup(q5, field_name(FormField::Subject)) == Some(m.subject));
    assert(lookup(q5, field_name(FormField::Content)) == Some(m.content));
}

} // verus!
