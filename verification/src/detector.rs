//! Detection of the program that instruction data belongs to: by program
//! id, by instruction discriminator, by heuristics over the accounts, and
//! by the shape of Anchor instructions.

use vstd::prelude::*;
use crate::parse_error::ParseError;
use crate::program_types::{DetectionMethod, DetectionResult, ProgramType};
use crate::solana_key::{AccountKey, base58_key, base58_text, key_from_base58, key_to_base58};
use crate::text::{contains_text, has_infix, has_prefix, starts_with_text};

verus! {

/// The programs known by id: base58 program id and program type.
pub open spec fn known_program_table() -> Seq<(Seq<char>, ProgramType)> {
    seq![
        ("TokenkegQfeZyiNwAJbNbGKPFXCWuBvf9Ss623VQ5DA"@, ProgramType::SplToken),
        ("TokenzQdBNbLqP5VEhdkAS6EPFLC1PHnBqCXEpPxuEb"@, ProgramType::SplToken),
        ("metaqbxxUerdq28cj1RbAWkYQm3ybzjb6a8bt518x1s"@, ProgramType::Metaplex),
        ("BGUMAp9Gq7iTEuizy4pqaxsTyUCBK68MDfK752saRPUY"@, ProgramType::Metaplex),
        ("JUP6LkbZbjS1jKKwapdHNy74zcZ3tLUZoi5QNyVTaV4"@, ProgramType::Jupiter),
        ("JUP4Fb2cqiRUcaTHdrPC8h2gNsA2ETXiPDD33WcGuJB"@, ProgramType::Jupiter),
        ("675kPX9MHTjS2zt1qfr1NYHuzeLXfQM9H24wFSUt1Mp8"@, ProgramType::Raydium),
        ("whirLbMiicVdio4qvUfM5KAg6Ct8VwpYzGff3uctyCc"@, ProgramType::Orca),
        ("9xQeWvG816bUx9EPjHmaT23yvVM2ZWbrrpZb9PusVFin"@, ProgramType::Serum),
        ("So1endDq2YkqhipRh3WViPa8hdiSpxWy6z3Z6tMCpAo"@, ProgramType::Solend),
        ("MarBmsSgKXdrN1egZf5sqe1TMai9K1rChYNDJgjq7aD"@, ProgramType::Marinade),
        ("11111111111111111111111111111111"@, ProgramType::System)
    ]
}

/// The entries of a table of base58 ids whose ids decode, with the keys
/// they decode to.
pub open spec fn decoded_entries(t: Seq<(Seq<char>, ProgramType)>) -> Seq<(AccountKey, ProgramType)>
    decreases t.len(),
{
    if t.len() == 0 {
        Seq::empty()
    } else {
        let rest = decoded_entries(t.drop_last());
        match base58_key(t.last().0) {
            Some(b) => rest.push((AccountKey { bytes: b }, t.last().1)),
            None => rest,
        }
    }
}

/// The type recorded last for a key in a list of entries, as a map that
/// takes the entries in order keeps it.
pub open spec fn lookup_last<K>(s: Seq<(K, ProgramType)>, key: K) -> Option<ProgramType>
    decreases s.len(),
{
    if s.len() == 0 {
        None
    } else if s.last().0 == key {
        Some(s.last().1)
    } else {
        lookup_last(s.drop_last(), key)
    }
}

/// The instruction discriminators the detector knows.
pub open spec fn signature_table() -> Seq<(Seq<u8>, ProgramType)> {
    seq![
        (seq![3u8], ProgramType::SplToken),
        (seq![7u8], ProgramType::SplToken),
        (seq![8u8], ProgramType::SplToken),
        (seq![0x6au8, 0x18, 0x53, 0x00, 0x7c, 0x05, 0x26, 0xd3], ProgramType::Metaplex),
        (seq![0x8au8, 0x49, 0x25, 0xf9, 0xe2, 0x50, 0x69, 0x8f], ProgramType::Jupiter),
        (seq![0xf8u8, 0xc6, 0x9e, 0x91, 0xe1, 0x75, 0x87, 0xc8], ProgramType::Raydium)
    ]
}

/// The program type that the instruction's first byte, or else its first
/// eight bytes, are the discriminator of.
pub open spec fn signature_type(data: Seq<u8>) -> Option<ProgramType> {
    if data.len() == 0 {
        None
    } else if lookup_last(signature_table(), data.subrange(0, 1)) is Some {
        lookup_last(signature_table(), data.subrange(0, 1))
    } else if data.len() >= 8 {
        lookup_last(signature_table(), data.subrange(0, 8))
    } else {
        None
    }
}

/// A single-byte discriminator of at most 12 and two to eight accounts.
pub open spec fn spl_token_shaped(data: Seq<u8>, key_count: nat) -> bool {
    data.len() > 0 && data[0] <= 12 && 2 <= key_count <= 8
}

/// At least five accounts, one of whose base58 text starts with
/// "metadata" or holds the System program's id.
pub open spec fn metaplex_shaped(keys: Seq<AccountKey>) -> bool {
    keys.len() >= 5 && exists|i: int| 0 <= i < keys.len() && metadata_like(#[trigger] keys[i])
}

/// A key whose base58 text starts with "metadata" or holds the System
/// program's id.
pub open spec fn metadata_like(k: AccountKey) -> bool {
    has_prefix(base58_text(k.bytes), "metadata"@) || has_infix(base58_text(k.bytes), "11111111111111111111111111111111"@)
}

/// Six to twenty accounts and more than eight bytes of data.
pub open spec fn dex_shaped(data: Seq<u8>, key_count: nat) -> bool {
    6 <= key_count <= 20 && data.len() > 8
}

/// Eight bytes or more, not all of the first eight zero.
pub open spec fn anchor_shaped(data: Seq<u8>) -> bool {
    data.len() >= 8 && exists|i: int| 0 <= i < 8 && data[i] != 0
}

/// The guess from the shape of the data: among the SPL Token, Metaplex and
/// DEX shapes, the one checked last that fits, with its confidence and note.
pub open spec fn heuristic_verdict(data: Seq<u8>, keys: Seq<AccountKey>) -> Option<(ProgramType, u8, Seq<char>)> {
    if dex_shaped(data, keys.len()) {
        Some((ProgramType::Jupiter, 50u8, "dex_pattern"@))
    } else if metaplex_shaped(keys) {
        Some((ProgramType::Metaplex, 60u8, "metaplex_pattern"@))
    } else if spl_token_shaped(data, keys.len()) {
        Some((ProgramType::SplToken, 70u8, "spl_token_pattern"@))
    } else {
        None
    }
}

/// The detection for a program id, its instruction data and accounts,
/// given the known programs: type, confidence, method, and the heuristic
/// note where a heuristic decided.
pub open spec fn detection_spec(
    known: Seq<(AccountKey, ProgramType)>,
    program_id: AccountKey,
    data: Seq<u8>,
    keys: Seq<AccountKey>,
) -> (ProgramType, u8, DetectionMethod, Option<Seq<char>>) {
    if lookup_last(known, program_id) is Some {
        (lookup_last(known, program_id)->0, 100u8, DetectionMethod::ProgramId, None)
    } else if signature_type(data) is Some {
        (signature_type(data)->0, 90u8, DetectionMethod::DataSignature, None)
    } else if heuristic_verdict(data, keys) is Some {
        let v = heuristic_verdict(data, keys)->0;
        (v.0, v.1, DetectionMethod::Heuristic, Some(v.2))
    } else if anchor_shaped(data) {
        (ProgramType::Anchor, 80u8, DetectionMethod::InstructionPattern, None)
    } else {
        (ProgramType::Unknown, 0u8, DetectionMethod::Heuristic, None)
    }
}

/// Looking a key up among the decoded entries of a table finds the type of
/// the entry whose text decodes to it, where no other text of the table
/// decodes to that key and the text comes with one type only.
proof fn lemma_decoded_lookup(t: Seq<(Seq<char>, ProgramType)>, text: Seq<char>, ty: ProgramType, b: [u8; 32])
    requires
        base58_key(text) == Some(b),
        exists|i: int| 0 <= i < t.len() && t[i].0 == text,
        forall|i: int| 0 <= i < t.len() && t[i].0 != text ==> base58_key(t[i].0) != Some(b),
        forall|i: int| 0 <= i < t.len() && t[i].0 == text ==> t[i].1 == ty,
    ensures
        lookup_last(decoded_entries(t), AccountKey { bytes: b }) == Some(ty),
    decreases t.len(),
{
    let key = AccountKey { bytes: b };
    let rest = t.drop_last();
    let d = decoded_entries(rest);
    if t.last().0 == text {
        assert(t[t.len() - 1].1 == ty);
        assert(decoded_entries(t) == d.push((key, ty)));
        assert(d.push((key, ty)).last() == (key, ty));
    } else {
        let i = choose|i: int| 0 <= i < t.len() && t[i].0 == text;
        assert(rest[i] == t[i]);
        assert forall|j: int| 0 <= j < rest.len() && rest[j].0 != text implies base58_key(rest[j].0) != Some(b) by {
            assert(rest[j] == t[j]);
        }
        assert forall|j: int| 0 <= j < rest.len() && rest[j].0 == text implies rest[j].1 == ty by {
            assert(rest[j] == t[j]);
        }
        lemma_decoded_lookup(rest, text, ty, b);
        assert(base58_key(t[t.len() - 1].0) != Some(b));
        match base58_key(t.last().0) {
            Some(c) => {
                let x = (AccountKey { bytes: c }, t.last().1);
                assert(decoded_entries(t) == d.push(x));
                assert(x.0 != key);
                assert(d.push(x).drop_last() =~= d);
            },
            None => {
                assert(decoded_entries(t) == d);
            },
        }
    }
}

/// The ids of the known programs are told apart by their texts.
proof fn lemma_known_texts_distinct()
    ensures
        forall|i: int, j: int| 0 <= i < j < known_program_table().len() ==>
            known_program_table()[i].0 != known_program_table()[j].0,
{
    reveal_strlit("TokenkegQfeZyiNwAJbNbGKPFXCWuBvf9Ss623VQ5DA");
    reveal_strlit("TokenzQdBNbLqP5VEhdkAS6EPFLC1PHnBqCXEpPxuEb");
    reveal_strlit("metaqbxxUerdq28cj1RbAWkYQm3ybzjb6a8bt518x1s");
    reveal_strlit("BGUMAp9Gq7iTEuizy4pqaxsTyUCBK68MDfK752saRPUY");
    reveal_strlit("JUP6LkbZbjS1jKKwapdHNy74zcZ3tLUZoi5QNyVTaV4");
    reveal_strlit("JUP4Fb2cqiRUcaTHdrPC8h2gNsA2ETXiPDD33WcGuJB");
    reveal_strlit("675kPX9MHTjS2zt1qfr1NYHuzeLXfQM9H24wFSUt1Mp8");
    reveal_strlit("whirLbMiicVdio4qvUfM5KAg6Ct8VwpYzGff3uctyCc");
    reveal_strlit("9xQeWvG816bUx9EPjHmaT23yvVM2ZWbrrpZb9PusVFin");
    reveal_strlit("So1endDq2YkqhipRh3WViPa8hdiSpxWy6z3Z6tMCpAo");
    reveal_strlit("MarBmsSgKXdrN1egZf5sqe1TMai9K1rChYNDJgjq7aD");
    reveal_strlit("11111111111111111111111111111111");
    let t = known_program_table();
    assert forall|i: int, j: int| 0 <= i < j < t.len() implies t[i].0 != t[j].0 by {
        if t[i].0 == t[j].0 {
            assert(t[i].0[0] == t[j].0[0]);
            assert(t[i].0[3] == t[j].0[3]);
            assert(t[i].0[5] == t[j].0[5]);
        }
    }
}

/// A fresh detector names each well-known program by its id: an
/// instruction of that program is detected as its type, with full
/// confidence, by program id, whatever its data and accounts. The law rests
/// on base58 decoding taking distinct texts to distinct keys.
pub proof fn law_known_program_ids(
    text: Seq<char>,
    ty: ProgramType,
    program_id: AccountKey,
    data: Seq<u8>,
    keys: Seq<AccountKey>,
)
    requires
        (text == "TokenkegQfeZyiNwAJbNbGKPFXCWuBvf9Ss623VQ5DA"@ && ty == ProgramType::SplToken)
            || (text == "TokenzQdBNbLqP5VEhdkAS6EPFLC1PHnBqCXEpPxuEb"@ && ty == ProgramType::SplToken)
            || (text == "metaqbxxUerdq28cj1RbAWkYQm3ybzjb6a8bt518x1s"@ && ty == ProgramType::Metaplex)
            || (text == "BGUMAp9Gq7iTEuizy4pqaxsTyUCBK68MDfK752saRPUY"@ && ty == ProgramType::Metaplex)
            || (text == "JUP6LkbZbjS1jKKwapdHNy74zcZ3tLUZoi5QNyVTaV4"@ && ty == ProgramType::Jupiter)
            || (text == "JUP4Fb2cqiRUcaTHdrPC8h2gNsA2ETXiPDD33WcGuJB"@ && ty == ProgramType::Jupiter)
            || (text == "675kPX9MHTjS2zt1qfr1NYHuzeLXfQM9H24wFSUt1Mp8"@ && ty == ProgramType::Raydium)
            || (text == "whirLbMiicVdio4qvUfM5KAg6Ct8VwpYzGff3uctyCc"@ && ty == ProgramType::Orca)
            || (text == "9xQeWvG816bUx9EPjHmaT23yvVM2ZWbrrpZb9PusVFin"@ && ty == ProgramType::Serum)
            || (text == "So1endDq2YkqhipRh3WViPa8hdiSpxWy6z3Z6tMCpAo"@ && ty == ProgramType::Solend)
            || (text == "MarBmsSgKXdrN1egZf5sqe1TMai9K1rChYNDJgjq7aD"@ && ty == ProgramType::Marinade)
            || (text == "11111111111111111111111111111111"@ && ty == ProgramType::System),
        base58_key(text) == Some(program_id.bytes),
        forall|a: Seq<char>, c: Seq<char>| base58_key(a) is Some && base58_key(a) == base58_key(c) ==> a == c,
    ensures
        detection_spec(decoded_entries(known_program_table()), program_id, data, keys)
            == (ty, 100u8, DetectionMethod::ProgramId, None::<Seq<char>>),
{
    let t = known_program_table();
    lemma_known_texts_distinct();
    reveal_strlit("TokenkegQfeZyiNwAJbNbGKPFXCWuBvf9Ss623VQ5DA");
    reveal_strlit("TokenzQdBNbLqP5VEhdkAS6EPFLC1PHnBqCXEpPxuEb");
    reveal_strlit("metaqbxxUerdq28cj1RbAWkYQm3ybzjb6a8bt518x1s");
    reveal_strlit("BGUMAp9Gq7iTEuizy4pqaxsTyUCBK68MDfK752saRPUY");
    reveal_strlit("JUP6LkbZbjS1jKKwapdHNy74zcZ3tLUZoi5QNyVTaV4");
    reveal_strlit("JUP4Fb2cqiRUcaTHdrPC8h2gNsA2ETXiPDD33WcGuJB");
    reveal_strlit("675kPX9MHTjS2zt1qfr1NYHuzeLXfQM9H24wFSUt1Mp8");
    reveal_strlit("whirLbMiicVdio4qvUfM5KAg6Ct8VwpYzGff3uctyCc");
    reveal_strlit("9xQeWvG816bUx9EPjHmaT23yvVM2ZWbrrpZb9PusVFin");
    reveal_strlit("So1endDq2YkqhipRh3WViPa8hdiSpxWy6z3Z6tMCpAo");
    reveal_strlit("MarBmsSgKXdrN1egZf5sqe1TMai9K1rChYNDJgjq7aD");
    reveal_strlit("11111111111111111111111111111111");
    assert(exists|k: int| 0 <= k < t.len() && t[k] == (text, ty)) by {
        if text == "TokenkegQfeZyiNwAJbNbGKPFXCWuBvf9Ss623VQ5DA"@ { assert(t[0] == (text, ty)); }
        if text == "TokenzQdBNbLqP5VEhdkAS6EPFLC1PHnBqCXEpPxuEb"@ { assert(t[1] == (text, ty)); }
        if text == "metaqbxxUerdq28cj1RbAWkYQm3ybzjb6a8bt518x1s"@ { assert(t[2] == (text, ty)); }
        if text == "BGUMAp9Gq7iTEuizy4pqaxsTyUCBK68MDfK752saRPUY"@ { assert(t[3] == (text, ty)); }
        if text == "JUP6LkbZbjS1jKKwapdHNy74zcZ3tLUZoi5QNyVTaV4"@ { assert(t[4] == (text, ty)); }
        if text == "JUP4Fb2cqiRUcaTHdrPC8h2gNsA2ETXiPDD33WcGuJB"@ { assert(t[5] == (text, ty)); }
        if text == "675kPX9MHTjS2zt1qfr1NYHuzeLXfQM9H24wFSUt1Mp8"@ { assert(t[6] == (text, ty)); }
        if text == "whirLbMiicVdio4qvUfM5KAg6Ct8VwpYzGff3uctyCc"@ { assert(t[7] == (text, ty)); }
        if text == "9xQeWvG816bUx9EPjHmaT23yvVM2ZWbrrpZb9PusVFin"@ { assert(t[8] == (text, ty)); }
        if text == "So1endDq2YkqhipRh3WViPa8hdiSpxWy6z3Z6tMCpAo"@ { assert(t[9] == (text, ty)); }
        if text == "MarBmsSgKXdrN1egZf5sqe1TMai9K1rChYNDJgjq7aD"@ { assert(t[10] == (text, ty)); }
        if text == "11111111111111111111111111111111"@ { assert(t[11] == (text, ty)); }
    }
    let k = choose|k: int| 0 <= k < t.len() && t[k] == (text, ty);
    assert(t[k].0 == text);
    assert forall|i: int| 0 <= i < t.len() && t[i].0 == text implies t[i].1 == ty by {
        if i != k {
            if i < k { assert(t[i].0 != t[k].0); } else { assert(t[k].0 != t[i].0); }
        }
    }
    assert forall|i: int| 0 <= i < t.len() && t[i].0 != text implies base58_key(t[i].0) != Some(program_id.bytes) by {
        if base58_key(t[i].0) == Some(program_id.bytes) {
            assert(base58_key(t[i].0) == base58_key(text));
        }
    }
    assert(program_id == (AccountKey { bytes: program_id.bytes }));
    lemma_decoded_lookup(t, text, ty, program_id.bytes);
}

/// The notes of a detection as texts.
pub open spec fn note_texts(m: Seq<(String, String)>) -> Seq<(Seq<char>, Seq<char>)> {
    Seq::new(m.len(), |i: int| (m[i].0@, m[i].1@))
}

/// Whether a detection result is the one described.
pub open spec fn detection_is(r: DetectionResult, d: (ProgramType, u8, DetectionMethod, Option<Seq<char>>)) -> bool {
    &&& r.program_type == d.0
    &&& r.confidence_percent == d.1
    &&& r.detection_method == d.2
    &&& note_texts(r.metadata@) == match d.3 {
        Some(n) => seq![("heuristic"@, n)],
        None => Seq::<(Seq<char>, Seq<char>)>::empty(),
    }
}

/// Finds the program type of instruction data.
pub struct ProgramDetector {
    pub known_programs: Vec<(AccountKey, ProgramType)>,
    signature_patterns: Vec<(Vec<u8>, ProgramType)>,
}

/// The byte strings of the discriminator table as values.
pub open spec fn pattern_values(p: Seq<(Vec<u8>, ProgramType)>) -> Seq<(Seq<u8>, ProgramType)> {
    Seq::new(p.len(), |i: int| (p[i].0@, p[i].1))
}

fn plain_result(program_type: ProgramType, confidence_percent: u8, detection_method: DetectionMethod) -> (res: DetectionResult)
    ensures
        detection_is(res, (program_type, confidence_percent, detection_method, None)),
{
    let res = DetectionResult { program_type, confidence_percent, detection_method, metadata: Vec::new() };
    assert(note_texts(res.metadata@) =~= Seq::<(Seq<char>, Seq<char>)>::empty());
    res
}

impl ProgramDetector {
    /// The detector's discriminator table is the fixed one.
    pub closed spec fn known(&self) -> Seq<(AccountKey, ProgramType)> {
        self.known_programs@
    }

    pub closed spec fn wf(&self) -> bool {
        pattern_values(self.signature_patterns@) == signature_table()
    }

    /// A detector that knows the programs of the table whose ids decode, and
    /// the fixed discriminators.
    pub fn new() -> (res: Self)
        ensures
            res.wf(),
            res.known() == decoded_entries(known_program_table()),
    {
        let mut detector = ProgramDetector { known_programs: Vec::new(), signature_patterns: Vec::new() };
        detector.initialize_known_programs();
        detector.initialize_signature_patterns();
        detector
    }

    fn add_known(&mut self, text: &str, program_type: ProgramType)
        ensures
            final(self).signature_patterns@ == old(self).signature_patterns@,
            final(self).known_programs@ == match base58_key(text@) {
                Some(b) => old(self).known_programs@.push((AccountKey { bytes: b }, program_type)),
                None => old(self).known_programs@,
            },
    {
        match key_from_base58(text) {
            Some(k) => self.known_programs.push((k, program_type)),
            None => {},
        }
    }

    fn initialize_known_programs(&mut self)
        ensures
            final(self).signature_patterns@ == old(self).signature_patterns@,
            final(self).known_programs@ == old(self).known_programs@ + decoded_entries(known_program_table()),
    {
        let table: Vec<(&str, ProgramType)> = vec![
            ("TokenkegQfeZyiNwAJbNbGKPFXCWuBvf9Ss623VQ5DA", ProgramType::SplToken),
            ("TokenzQdBNbLqP5VEhdkAS6EPFLC1PHnBqCXEpPxuEb", ProgramType::SplToken),
            ("metaqbxxUerdq28cj1RbAWkYQm3ybzjb6a8bt518x1s", ProgramType::Metaplex),
            ("BGUMAp9Gq7iTEuizy4pqaxsTyUCBK68MDfK752saRPUY", ProgramType::Metaplex),
            ("JUP6LkbZbjS1jKKwapdHNy74zcZ3tLUZoi5QNyVTaV4", ProgramType::Jupiter),
            ("JUP4Fb2cqiRUcaTHdrPC8h2gNsA2ETXiPDD33WcGuJB", ProgramType::Jupiter),
            ("675kPX9MHTjS2zt1qfr1NYHuzeLXfQM9H24wFSUt1Mp8", ProgramType::Raydium),
            ("whirLbMiicVdio4qvUfM5KAg6Ct8VwpYzGff3uctyCc", ProgramType::Orca),
            ("9xQeWvG816bUx9EPjHmaT23yvVM2ZWbrrpZb9PusVFin", ProgramType::Serum),
            ("So1endDq2YkqhipRh3WViPa8hdiSpxWy6z3Z6tMCpAo", ProgramType::Solend),
            ("MarBmsSgKXdrN1egZf5sqe1TMai9K1rChYNDJgjq7aD", ProgramType::Marinade),
            ("11111111111111111111111111111111", ProgramType::System),
        ];
        let ghost tv = Seq::new(table@.len(), |i: int| (table@[i].0@, table@[i].1));
        assert(tv =~= known_program_table());
        let ghost start = self.known_programs@;
        let mut i: usize = 0;
        while i < table.len()
            invariant
                i <= table@.len(),
                tv == Seq::new(table@.len(), |i: int| (table@[i].0@, table@[i].1)),
                self.signature_patterns@ == old(self).signature_patterns@,
                start == old(self).known_programs@,
                self.known_programs@ == start + decoded_entries(tv.subrange(0, i as int)),
            decreases table@.len() - i,
        {
            let ghost before = self.known_programs@;
            self.add_known(table[i].0, table[i].1);
            proof {
                let pre = tv.subrange(0, i as int);
                assert(tv.subrange(0, i + 1).drop_last() =~= pre);
                assert(tv.subrange(0, i + 1).last() == tv[i as int]);
                match base58_key(tv[i as int].0) {
                    Some(b) => {
                        assert((start + decoded_entries(pre)).push((AccountKey { bytes: b }, tv[i as int].1))
                            =~= start + decoded_entries(pre).push((AccountKey { bytes: b }, tv[i as int].1)));
                    },
                    None => {},
                }
            }
            i = i + 1;
        }
        assert(tv.subrange(0, table@.len() as int) =~= tv);
    }

    fn initialize_signature_patterns(&mut self)
        requires
            old(self).signature_patterns@.len() == 0,
        ensures
            final(self).known_programs@ == old(self).known_programs@,
            pattern_values(final(self).signature_patterns@) == signature_table(),
    {
        self.signature_patterns.push((one_byte(3), ProgramType::SplToken));
        self.signature_patterns.push((one_byte(7), ProgramType::SplToken));
        self.signature_patterns.push((one_byte(8), ProgramType::SplToken));
        self.signature_patterns.push((eight_bytes(0x6a, 0x18, 0x53, 0x00, 0x7c, 0x05, 0x26, 0xd3), ProgramType::Metaplex));
        self.signature_patterns.push((eight_bytes(0x8a, 0x49, 0x25, 0xf9, 0xe2, 0x50, 0x69, 0x8f), ProgramType::Jupiter));
        self.signature_patterns.push((eight_bytes(0xf8, 0xc6, 0x9e, 0x91, 0xe1, 0x75, 0x87, 0xc8), ProgramType::Raydium));
        assert(pattern_values(self.signature_patterns@) =~= signature_table());
    }

    /// The type recorded last for a program id among the known programs.
    pub fn lookup_known(&self, program_id: &AccountKey) -> (res: Option<ProgramType>)
        ensures
            res == lookup_last(self.known(), *program_id),
    {
        let mut i: usize = self.known_programs.len();
        assert(self.known_programs@.subrange(0, i as int) =~= self.known_programs@);
        while i > 0
            invariant
                i <= self.known_programs@.len(),
                lookup_last(self.known_programs@, *program_id)
                    == lookup_last(self.known_programs@.subrange(0, i as int), *program_id),
            decreases i,
        {
            let ghost s = self.known_programs@.subrange(0, i as int);
            assert(s.drop_last() =~= self.known_programs@.subrange(0, i - 1));
            if self.known_programs[i - 1].0.same_as(program_id) {
                return Some(self.known_programs[i - 1].1);
            }
            i = i - 1;
        }
        None
    }

    fn lookup_pattern(&self, key: &[u8]) -> (res: Option<ProgramType>)
        requires
            self.wf(),
        ensures
            res == lookup_last(signature_table(), key@),
    {
        let mut i: usize = self.signature_patterns.len();
        assert(signature_table().subrange(0, i as int) =~= signature_table());
        while i > 0
            invariant
                i <= self.signature_patterns@.len(),
                pattern_values(self.signature_patterns@) == signature_table(),
                lookup_last(signature_table(), key@)
                    == lookup_last(signature_table().subrange(0, i as int), key@),
            decreases i,
        {
            let ghost s = signature_table().subrange(0, i as int);
            assert(s.drop_last() =~= signature_table().subrange(0, i - 1));
            let pattern = &self.signature_patterns[i - 1].0;
            assert(pattern@ == signature_table()[i - 1].0);
            if bytes_equal(pattern.as_slice(), key) {
                return Some(self.signature_patterns[i - 1].1);
            }
            i = i - 1;
        }
        None
    }

    fn detect_by_signature(&self, instruction_data: &[u8]) -> (res: Option<ProgramType>)
        requires
            self.wf(),
        ensures
            res == signature_type(instruction_data@),
    {
        if instruction_data.len() == 0 {
            return None;
        }
        let first = slice_prefix(instruction_data, 1);
        let by_first = self.lookup_pattern(first.as_slice());
        if by_first.is_some() {
            return by_first;
        }
        if instruction_data.len() >= 8 {
            let head = slice_prefix(instruction_data, 8);
            return self.lookup_pattern(head.as_slice());
        }
        None
    }

    fn looks_like_spl_token(&self, instruction_data: &[u8], account_keys: &[AccountKey]) -> (res: bool)
        ensures
            res == spl_token_shaped(instruction_data@, account_keys@.len()),
    {
        if instruction_data.len() == 0 {
            return false;
        }
        let discriminator = instruction_data[0];
        if discriminator > 12 {
            return false;
        }
        account_keys.len() >= 2 && account_keys.len() <= 8
    }

    fn looks_like_metaplex(&self, instruction_data: &[u8], account_keys: &[AccountKey]) -> (res: bool)
        ensures
            res == metaplex_shaped(account_keys@),
    {
        if account_keys.len() < 5 {
            return false;
        }
        let mut i: usize = 0;
        while i < account_keys.len()
            invariant
                i <= account_keys@.len(),
                account_keys@.len() >= 5,
                forall|j: int| 0 <= j < i ==> !metadata_like(#[trigger] account_keys@[j]),
            decreases account_keys@.len() - i,
        {
            let text = key_to_base58(&account_keys[i]);
            if starts_with_text(text.as_str(), "metadata")
                || contains_text(text.as_str(), "11111111111111111111111111111111") {
                assert(metadata_like(account_keys@[i as int]));
                return true;
            }
            i = i + 1;
        }
        false
    }

    fn looks_like_dex(&self, instruction_data: &[u8], account_keys: &[AccountKey]) -> (res: bool)
        ensures
            res == dex_shaped(instruction_data@, account_keys@.len()),
    {
        if account_keys.len() < 6 || account_keys.len() > 20 {
            return false;
        }
        instruction_data.len() > 8
    }

    fn is_anchor_program(&self, instruction_data: &[u8]) -> (res: bool)
        ensures
            res == anchor_shaped(instruction_data@),
    {
        if instruction_data.len() < 8 {
            return false;
        }
        let mut i: usize = 0;
        while i < 8
            invariant
                instruction_data@.len() >= 8,
                i <= 8,
                forall|j: int| 0 <= j < i ==> instruction_data@[j] == 0,
            decreases 8 - i,
        {
            if instruction_data[i] != 0 {
                return true;
            }
            i = i + 1;
        }
        false
    }

    fn detect_by_heuristics(
        &self,
        program_id: &AccountKey,
        instruction_data: &[u8],
        account_keys: &[AccountKey],
    ) -> (res: Option<DetectionResult>)
        ensures
            match heuristic_verdict(instruction_data@, account_keys@) {
                Some(v) => res matches Some(r) && detection_is(r, (v.0, v.1, DetectionMethod::Heuristic, Some(v.2))),
                None => res is None,
            },
    {
        let mut confidence: u8 = 0;
        let mut detected_type = ProgramType::Unknown;
        let mut note: &str = "";
        if self.looks_like_spl_token(instruction_data, account_keys) {
            confidence = 70;
            detected_type = ProgramType::SplToken;
            note = "spl_token_pattern";
        }
        if self.looks_like_metaplex(instruction_data, account_keys) {
            confidence = 60;
            detected_type = ProgramType::Metaplex;
            note = "metaplex_pattern";
        }
        if self.looks_like_dex(instruction_data, account_keys) {
            confidence = 50;
            detected_type = ProgramType::Jupiter;
            note = "dex_pattern";
        }
        if confidence > 0 {
            let mut metadata: Vec<(String, String)> = Vec::new();
            metadata.push(("heuristic".to_owned(), note.to_owned()));
            let r = DetectionResult {
                program_type: detected_type,
                confidence_percent: confidence,
                detection_method: DetectionMethod::Heuristic,
                metadata,
            };
            assert(note_texts(r.metadata@) =~= seq![("heuristic"@, note@)]);
            Some(r)
        } else {
            None
        }
    }

    /// Detects the program type: by known program id (confidence 100), by
    /// discriminator (90), by heuristics (70, 60 or 50), as an Anchor
    /// program (80), or as unknown (0).
    pub fn detect_program(
        &self,
        program_id: &AccountKey,
        instruction_data: &[u8],
        account_keys: &[AccountKey],
    ) -> (res: Result<DetectionResult, ParseError>)
        requires
            self.wf(),
        ensures
            res matches Ok(r) && detection_is(r,
                detection_spec(self.known(), *program_id, instruction_data@, account_keys@)),
    {
        if let Some(program_type) = self.lookup_known(program_id) {
            return Ok(plain_result(program_type, 100, DetectionMethod::ProgramId));
        }
        if let Some(program_type) = self.detect_by_signature(instruction_data) {
            return Ok(plain_result(program_type, 90, DetectionMethod::DataSignature));
        }
        if let Some(result) = self.detect_by_heuristics(program_id, instruction_data, account_keys) {
            return Ok(result);
        }
        if self.is_anchor_program(instruction_data) {
            return Ok(plain_result(ProgramType::Anchor, 80, DetectionMethod::InstructionPattern));
        }
        Ok(plain_result(ProgramType::Unknown, 0, DetectionMethod::Heuristic))
    }
}

fn one_byte(a: u8) -> (res: Vec<u8>)
    ensures
        res@ == seq![a],
{
    let mut v: Vec<u8> = Vec::new();
    v.push(a);
    assert(v@ =~= seq![a]);
    v
}

#[allow(clippy::too_many_arguments)]
fn eight_bytes(a: u8, b: u8, c: u8, d: u8, e: u8, f: u8, g: u8, h: u8) -> (res: Vec<u8>)
    ensures
        res@ == seq![a, b, c, d, e, f, g, h],
{
    let mut v: Vec<u8> = Vec::new();
    v.push(a);
    v.push(b);
    v.push(c);
    v.push(d);
    v.push(e);
    v.push(f);
    v.push(g);
    v.push(h);
    assert(v@ =~= seq![a, b, c, d, e, f, g, h]);
    v
}

/// The first `n` bytes of a slice.
fn slice_prefix(data: &[u8], n: usize) -> (res: Vec<u8>)
    requires
        n <= data@.len(),
    ensures
        res@ == data@.subrange(0, n as int),
{
    let mut v: Vec<u8> = Vec::new();
    let mut i: usize = 0;
    while i < n
        invariant
            n <= data@.len(),
            i <= n,
            v@ == data@.subrange(0, i as int),
        decreases n - i,
    {
        v.push(data[i]);
        i = i + 1;
    }
    v
}

/// Whether two byte strings are equal.
fn bytes_equal(a: &[u8], b: &[u8]) -> (res: bool)
    ensures
        res <==> a@ == b@,
{
    if a.len() != b.len() {
        return false;
    }
    let mut i: usize = 0;
    while i < a.len()
        invariant
            a@.len() == b@.len(),
            i <= a@.len(),
            forall|j: int| 0 <= j < i ==> a@[j] == b@[j],
        decreases a@.len() - i,
    {
        if a[i] != b[i] {
            return false;
        }
        i = i + 1;
    }
    assert(a@ =~= b@);
    true
}

} // verus!
