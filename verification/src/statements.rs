//! Cutting a migration script into its statements.
use crate::differ::lemma_seq_view_push;
use crate::schema::seq_view;
use vstd::prelude::*;

verus! {

/// Whether the byte at `n` of `script` lies inside a quoted string: an odd number of single
/// quotes stands before it.
pub open spec fn in_quote(script: Seq<u8>, n: nat) -> bool
    decreases n,
{
    if n == 0 {
        false
    } else if script[n - 1] == 39u8 {
        !in_quote(script, (n - 1) as nat)
    } else {
        in_quote(script, (n - 1) as nat)
    }
}

/// Whether the byte at `i` ends a statement: a semicolon outside a quoted string.
pub open spec fn ends_statement(script: Seq<u8>, i: int) -> bool {
    script[i] == 59u8 && !in_quote(script, i as nat)
}

/// Where the statement begins that the byte at `n` belongs to: after the last statement end
/// before `n`.
pub open spec fn segment_start(script: Seq<u8>, n: nat) -> nat
    decreases n,
{
    if n == 0 {
        0
    } else if ends_statement(script, n - 1) {
        n
    } else {
        segment_start(script, (n - 1) as nat)
    }
}

/// Whether a byte is a space, a tab, a line feed or a carriage return.
pub open spec fn is_blank_byte(byte: u8) -> bool {
    byte == 32u8 || byte == 9u8 || byte == 10u8 || byte == 13u8
}

/// Whether a text holds nothing but blank bytes.
pub open spec fn is_blank(text: Seq<u8>) -> bool {
    forall|i: int| 0 <= i < text.len() ==> is_blank_byte(#[trigger] text[i])
}

/// The statements that end among the first `n` bytes of `script`: each is the text between
/// two statement ends, and blank texts are left out.
pub open spec fn statements_upto(script: Seq<u8>, n: nat) -> Seq<Seq<u8>>
    decreases n,
{
    if n == 0 {
        Seq::empty()
    } else {
        let before = statements_upto(script, (n - 1) as nat);
        let text = script.subrange(segment_start(script, (n - 1) as nat) as int, n - 1);
        if ends_statement(script, n - 1) && !is_blank(text) {
            before.push(text)
        } else {
            before
        }
    }
}

/// The statements of a script: those that a semicolon ends, then what follows the last
/// semicolon unless it is blank.
pub open spec fn spec_statements(script: Seq<u8>) -> Seq<Seq<u8>> {
    let ended = statements_upto(script, script.len());
    let rest = script.subrange(segment_start(script, script.len()) as int, script.len() as int);
    if is_blank(rest) {
        ended
    } else {
        ended.push(rest)
    }
}

/// Cuts a script into its statements, without their semicolons.
pub fn split_statements(script: &[u8]) -> (statements: Vec<Vec<u8>>)
    ensures
        seq_view(statements@) == spec_statements(script@),
{
    let mut statements: Vec<Vec<u8>> = Vec::new();
    let mut text: Vec<u8> = Vec::new();
    let mut blank = true;
    let mut quoted = false;
    let mut i: usize = 0;
    let ghost mut start: int = 0;
    assert(seq_view(statements@) =~= Seq::<Seq<u8>>::empty());
    assert(text@ =~= script@.subrange(0, 0));
    while i < script.len()
        invariant
            0 <= i <= script.len(),
            quoted == in_quote(script@, i as nat),
            start == segment_start(script@, i as nat),
            0 <= start <= i,
            text@ == script@.subrange(start, i as int),
            blank == is_blank(text@),
            seq_view(statements@) == statements_upto(script@, i as nat),
        decreases script.len() - i,
    {
        let byte = script[i];
        if byte == 59u8 && !quoted {
            if !blank {
                proof {
                    lemma_seq_view_push(statements@, text);
                }
                statements.push(text);
            }
            text = Vec::new();
            blank = true;
            proof {
                start = i + 1;
                assert(text@ =~= script@.subrange(start, i + 1));
            }
        } else {
            if byte == 39u8 {
                quoted = !quoted;
            }
            let ghost before = text@;
            text.push(byte);
            blank = blank && (byte == 32u8 || byte == 9u8 || byte == 10u8 || byte == 13u8);
            proof {
                assert(text@ =~= script@.subrange(start, i + 1));
                if is_blank(before) && is_blank_byte(byte) {
                    assert forall|x: int| 0 <= x < text@.len() implies is_blank_byte(
                        #[trigger] text@[x],
                    ) by {
                        if x < before.len() {
                            assert(text@[x] == before[x]);
                        }
                    }
                }
                if is_blank(text@) {
                    assert(is_blank_byte(text@[text@.len() - 1]));
                    assert forall|x: int| 0 <= x < before.len() implies is_blank_byte(
                        #[trigger] before[x],
                    ) by {
                        assert(before[x] == text@[x]);
                    }
                }
            }
        }
        i += 1;
    }
    if !blank {
        proof {
            lemma_seq_view_push(statements@, text);
        }
        statements.push(text);
    }
    statements
}

/// No statement of a script is blank.
pub proof fn lemma_statements_not_blank(script: Seq<u8>, k: int)
    requires
        0 <= k < spec_statements(script).len(),
    ensures
        !is_blank(spec_statements(script)[k]),
{
    lemma_ended_statements_not_blank(script, script.len());
    let ended = statements_upto(script, script.len());
    if k < ended.len() {
        assert(spec_statements(script)[k] == ended[k]);
    }
}

proof fn lemma_ended_statements_not_blank(script: Seq<u8>, n: nat)
    ensures
        forall|k: int|
            0 <= k < statements_upto(script, n).len() ==> !is_blank(
                #[trigger] statements_upto(script, n)[k],
            ),
    decreases n,
{
    if n > 0 {
        lemma_ended_statements_not_blank(script, (n - 1) as nat);
        let before = statements_upto(script, (n - 1) as nat);
        let now = statements_upto(script, n);
        assert forall|k: int| 0 <= k < now.len() implies !is_blank(#[trigger] now[k]) by {
            if k < before.len() {
                assert(now[k] == before[k]);
            }
        }
    }
}

} // verus!
