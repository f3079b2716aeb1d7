//! Cache keys: the statement and its parameters, each escaped and closed by a
//! field-end byte, so that distinct queries never share a key.

use vstd::prelude::*;
use vstd::string::*;
use vstd::utf8::{encode_utf8, encode_utf8_decode_utf8};

verus! {

/// Byte that ends every field of a cache key.
pub const FIELD_END: u8 = 0x7c;

/// Byte that marks the following byte of a field as literal.
pub const ESCAPE: u8 = 0x5c;

pub open spec fn escape_byte(b: u8) -> Seq<u8> {
    if b == ESCAPE || b == FIELD_END {
        seq![ESCAPE, b]
    } else {
        seq![b]
    }
}

/// A field with every escape and field-end byte preceded by an escape byte.
pub open spec fn escape_field(s: Seq<u8>) -> Seq<u8>
    decreases s.len(),
{
    if s.len() == 0 {
        Seq::empty()
    } else {
        escape_field(s.drop_last()) + escape_byte(s.last())
    }
}

/// Each field escaped and closed by a field-end byte, in order.
pub open spec fn encode_fields(fields: Seq<Seq<u8>>) -> Seq<u8>
    decreases fields.len(),
{
    if fields.len() == 0 {
        Seq::empty()
    } else {
        escape_field(fields[0]) + seq![FIELD_END] + encode_fields(fields.drop_first())
    }
}

/// The cache key of a statement and its ordered parameters, over their UTF-8
/// bytes.
pub open spec fn key_of(sql: Seq<u8>, params: Seq<Seq<u8>>) -> Seq<u8> {
    encode_fields(seq![sql] + params)
}

/// The UTF-8 bytes of each parameter.
pub open spec fn params_bytes(params: Seq<String>) -> Seq<Seq<u8>> {
    params.map_values(|p: String| encode_utf8(p@))
}

proof fn lemma_encode_fields_push(fields: Seq<Seq<u8>>, f: Seq<u8>)
    ensures
        encode_fields(fields.push(f)) == encode_fields(fields) + escape_field(f) + seq![FIELD_END],
    decreases fields.len(),
{
    if fields.len() == 0 {
        assert(fields.push(f).drop_first() =~= Seq::<Seq<u8>>::empty());
        assert(encode_fields(Seq::<Seq<u8>>::empty()) == Seq::<u8>::empty());
        assert(fields.push(f)[0] == f);
        assert(encode_fields(fields.push(f)) =~= escape_field(f) + seq![FIELD_END]);
    } else {
        assert(fields.push(f).drop_first() =~= fields.drop_first().push(f));
        lemma_encode_fields_push(fields.drop_first(), f);
        assert(encode_fields(fields.push(f)) =~= encode_fields(fields) + escape_field(f) + seq![FIELD_END]);
    }
}

fn push_escaped(out: &mut Vec<u8>, field: &[u8])
    ensures
        final(out)@ == old(out)@ + escape_field(field@),
{
    let mut i: usize = 0;
    while i < field.len()
        invariant
            i <= field.len(),
            out@ == old(out)@ + escape_field(field@.take(i as int)),
        decreases field.len() - i,
    {
        let b = field[i];
        if b == ESCAPE || b == FIELD_END {
            out.push(ESCAPE);
        }
        out.push(b);
        proof {
            assert(field@.take(i + 1).drop_last() =~= field@.take(i as int));
            assert(out@ =~= old(out)@ + escape_field(field@.take(i + 1)));
        }
        i = i + 1;
    }
    assert(field@.take(field@.len() as int) =~= field@);
}

/// The key under which the result of `sql` run with `params` is cached.
pub fn cache_key(sql: &str, params: &Vec<String>) -> (r: Vec<u8>)
    ensures
        r@ == key_of(sql.spec_bytes(), params_bytes(params@)),
{
    let mut out: Vec<u8> = Vec::new();
    push_escaped(&mut out, sql.as_bytes());
    out.push(FIELD_END);
    let ghost first: Seq<Seq<u8>> = seq![sql.spec_bytes()];
    proof {
        assert(first.drop_first() =~= Seq::<Seq<u8>>::empty());
        assert(encode_fields(Seq::<Seq<u8>>::empty()) == Seq::<u8>::empty());
        assert(out@ =~= encode_fields(first));
    }
    let mut i: usize = 0;
    while i < params.len()
        invariant
            i <= params.len(),
            first == seq![sql.spec_bytes()],
            out@ == encode_fields(first + params_bytes(params@).take(i as int)),
        decreases params.len() - i,
    {
        let p: &str = params[i].as_str();
        push_escaped(&mut out, p.as_bytes());
        out.push(FIELD_END);
        proof {
            let pb = params_bytes(params@);
            lemma_encode_fields_push(first + pb.take(i as int), pb[i as int]);
            assert(first + pb.take(i + 1) =~= (first + pb.take(i as int)).push(pb[i as int]));
            assert(out@ =~= encode_fields(first + pb.take(i + 1)));
        }
        i = i + 1;
    }
    proof {
        assert(params_bytes(params@).take(params@.len() as int) =~= params_bytes(params@));
    }
    out
}

proof fn lemma_escape_concat(a: Seq<u8>, b: Seq<u8>)
    ensures
        escape_field(a + b) == escape_field(a) + escape_field(b),
    decreases b.len(),
{
    if b.len() == 0 {
        assert(a + b =~= a);
        assert(escape_field(a) + escape_field(b) =~= escape_field(a));
    } else {
        let bl = b.drop_last();
        assert((a + b).drop_last() =~= a + bl);
        assert((a + b).last() == b.last());
        lemma_escape_concat(a, bl);
        assert(escape_field(a + b) =~= escape_field(a) + escape_field(b));
    }
}

proof fn lemma_escape_front(s: Seq<u8>)
    requires
        s.len() > 0,
    ensures
        escape_field(s) == escape_byte(s[0]) + escape_field(s.drop_first()),
        escape_field(s).len() >= 1,
        escape_field(s)[0] != FIELD_END,
{
    let head = seq![s[0]];
    assert(s =~= head + s.drop_first());
    lemma_escape_concat(head, s.drop_first());
    assert(head.drop_last() =~= Seq::<u8>::empty());
    assert(escape_field(Seq::<u8>::empty()) =~= Seq::<u8>::empty());
    assert(head.last() == s[0]);
    assert(escape_field(head) =~= escape_byte(s[0]));
}

/// An escaped field is read back unambiguously up to its field-end byte.
proof fn lemma_escaped_prefix(a: Seq<u8>, b: Seq<u8>, x: Seq<u8>, y: Seq<u8>)
    requires
        escape_field(a) + seq![FIELD_END] + x == escape_field(b) + seq![FIELD_END] + y,
    ensures
        a == b,
        x == y,
    decreases a.len(),
{
    let l = escape_field(a) + seq![FIELD_END] + x;
    let r = escape_field(b) + seq![FIELD_END] + y;
    if a.len() == 0 {
        assert(escape_field(a) =~= Seq::<u8>::empty());
        if b.len() > 0 {
            lemma_escape_front(b);
            assert(l[0] == FIELD_END);
            assert(r[0] == escape_field(b)[0]);
        }
        assert(escape_field(b) =~= Seq::<u8>::empty());
        assert(x =~= l.skip(1));
        assert(y =~= r.skip(1));
    } else if b.len() == 0 {
        lemma_escape_front(a);
        assert(escape_field(b) =~= Seq::<u8>::empty());
        assert(r[0] == FIELD_END);
        assert(l[0] == escape_field(a)[0]);
    } else {
        lemma_escape_front(a);
        lemma_escape_front(b);
        let ea = escape_byte(a[0]);
        let eb = escape_byte(b[0]);
        let a1 = a.drop_first();
        let b1 = b.drop_first();
        assert(l =~= ea + (escape_field(a1) + seq![FIELD_END] + x));
        assert(r =~= eb + (escape_field(b1) + seq![FIELD_END] + y));
        assert(l[0] == ea[0]);
        assert(r[0] == eb[0]);
        if a[0] == ESCAPE || a[0] == FIELD_END {
            assert(l[1] == a[0]);
            if b[0] == ESCAPE || b[0] == FIELD_END {
                assert(r[1] == b[0]);
            }
        } else {
            if b[0] == ESCAPE || b[0] == FIELD_END {
            }
        }
        assert(a[0] == b[0]);
        assert(ea == eb);
        let k = ea.len() as int;
        assert(l.skip(k) =~= escape_field(a1) + seq![FIELD_END] + x);
        assert(r.skip(k) =~= escape_field(b1) + seq![FIELD_END] + y);
        lemma_escaped_prefix(a1, b1, x, y);
        assert(a =~= seq![a[0]] + a1);
        assert(b =~= seq![b[0]] + b1);
    }
}

proof fn lemma_encode_fields_injective(fs: Seq<Seq<u8>>, gs: Seq<Seq<u8>>)
    requires
        encode_fields(fs) == encode_fields(gs),
    ensures
        fs == gs,
    decreases fs.len(),
{
    if fs.len() == 0 {
        if gs.len() > 0 {
            assert(encode_fields(gs).len() > 0);
        }
        assert(gs =~= fs);
    } else if gs.len() == 0 {
        assert(encode_fields(fs).len() > 0);
    } else {
        lemma_escaped_prefix(fs[0], gs[0], encode_fields(fs.drop_first()), encode_fields(gs.drop_first()));
        lemma_encode_fields_injective(fs.drop_first(), gs.drop_first());
        assert(fs =~= seq![fs[0]] + fs.drop_first());
        assert(gs =~= seq![gs[0]] + gs.drop_first());
    }
}

/// Two queries share a cache key exactly when their statement texts are equal
/// and their parameter lists are equal, in the same order.
pub proof fn cache_key_identifies_query(
    sql1: Seq<char>,
    params1: Seq<String>,
    sql2: Seq<char>,
    params2: Seq<String>,
)
    ensures
        key_of(encode_utf8(sql1), params_bytes(params1)) == key_of(encode_utf8(sql2), params_bytes(params2))
            <==> (sql1 == sql2 && params1.len() == params2.len() && forall|i: int|
            0 <= i < params1.len() ==> #[trigger] params1[i]@ == params2[i]@),
{
    let f1 = seq![encode_utf8(sql1)] + params_bytes(params1);
    let f2 = seq![encode_utf8(sql2)] + params_bytes(params2);
    if key_of(encode_utf8(sql1), params_bytes(params1)) == key_of(encode_utf8(sql2), params_bytes(params2)) {
        lemma_encode_fields_injective(f1, f2);
        assert(f1[0] == f2[0]);
        encode_utf8_decode_utf8(sql1);
        encode_utf8_decode_utf8(sql2);
        assert(params1.len() == params2.len()) by {
            assert(f1.len() == f2.len());
        }
        assert forall|i: int| 0 <= i < params1.len() implies #[trigger] params1[i]@ == params2[i]@ by {
            assert(f1[i + 1] == f2[i + 1]);
            encode_utf8_decode_utf8(params1[i]@);
            encode_utf8_decode_utf8(params2[i]@);
        }
    }
    if sql1 == sql2 && params1.len() == params2.len() && forall|i: int|
        0 <= i < params1.len() ==> #[trigger] params1[i]@ == params2[i]@ {
        assert(params_bytes(params1) =~= params_bytes(params2));
    }
}

} // verus!
