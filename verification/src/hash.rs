//! Interface hashing: FNV-1a over the sorted, newline-joined signature set.
use vstd::prelude::*;
use vstd::relations::*;
use vstd::string::StringSliceAdditionalSpecFns;

verus! {

/// FNV-1a 64-bit offset basis.
pub const FNV_OFFSET_BASIS: u64 = 0xcbf29ce484222325;

/// FNV-1a 64-bit prime.
pub const FNV_PRIME: u64 = 0x100000001b3;

/// One FNV-1a round: xor the byte in, then multiply by the prime (mod 2^64).
pub open spec fn fnv_step(hash: u64, byte: u8) -> u64 {
    (hash ^ (byte as u64)).wrapping_mul(FNV_PRIME)
}

/// FNV-1a of a byte sequence, folding left from the offset basis.
pub open spec fn fnv1a_spec(bytes: Seq<u8>) -> u64
    decreases bytes.len(),
{
    if bytes.len() == 0 {
        FNV_OFFSET_BASIS
    } else {
        fnv_step(fnv1a_spec(bytes.drop_last()), bytes.last())
    }
}

/// FNV-1a hash of `bytes`.
pub fn fnv1a(bytes: &[u8]) -> (hash: u64)
    ensures
        hash == fnv1a_spec(bytes@),
{
    let mut hash = FNV_OFFSET_BASIS;
    let mut i: usize = 0;
    while i < bytes.len()
        invariant
            i <= bytes@.len(),
            hash == fnv1a_spec(bytes@.take(i as int)),
        decreases bytes@.len() - i,
    {
        assert(bytes@.take(i as int + 1).drop_last() =~= bytes@.take(i as int));
        hash ^= bytes[i] as u64;
        hash = hash.wrapping_mul(FNV_PRIME);
        i += 1;
    }
    assert(bytes@.take(i as int) =~= bytes@);
    hash
}


/// Lexicographic order on byte strings: the order `str` sorts by.
pub open spec fn bytes_le(a: Seq<u8>, b: Seq<u8>) -> bool
    decreases a.len(),
{
    if a.len() == 0 {
        true
    } else if b.len() == 0 {
        false
    } else if a[0] != b[0] {
        a[0] < b[0]
    } else {
        bytes_le(a.drop_first(), b.drop_first())
    }
}

/// `bytes_le` as a relation value, for `sort_by` and `sorted_by`.
pub open spec fn byte_order() -> spec_fn(Seq<u8>, Seq<u8>) -> bool {
    |a: Seq<u8>, b: Seq<u8>| bytes_le(a, b)
}

proof fn lemma_bytes_le_reflexive(a: Seq<u8>)
    ensures
        bytes_le(a, a),
    decreases a.len(),
{
    if a.len() > 0 {
        lemma_bytes_le_reflexive(a.drop_first());
    }
}

proof fn lemma_bytes_le_antisymmetric(a: Seq<u8>, b: Seq<u8>)
    requires
        bytes_le(a, b),
        bytes_le(b, a),
    ensures
        a == b,
    decreases a.len(),
{
    if a.len() > 0 {
        lemma_bytes_le_antisymmetric(a.drop_first(), b.drop_first());
        assert(a =~= seq![a[0]] + a.drop_first());
        assert(b =~= seq![b[0]] + b.drop_first());
    } else {
        assert(b.len() == 0);
        assert(a =~= b);
    }
}

pub(crate) proof fn lemma_bytes_le_transitive(a: Seq<u8>, b: Seq<u8>, c: Seq<u8>)
    requires
        bytes_le(a, b),
        bytes_le(b, c),
    ensures
        bytes_le(a, c),
    decreases a.len(),
{
    if a.len() > 0 && b.len() > 0 && c.len() > 0 && a[0] == b[0] && b[0] == c[0] {
        lemma_bytes_le_transitive(a.drop_first(), b.drop_first(), c.drop_first());
    }
}

pub(crate) proof fn lemma_bytes_le_total(a: Seq<u8>, b: Seq<u8>)
    ensures
        bytes_le(a, b) || bytes_le(b, a),
    decreases a.len(),
{
    if a.len() > 0 && b.len() > 0 && a[0] == b[0] {
        lemma_bytes_le_total(a.drop_first(), b.drop_first());
    }
}

/// The byte order is a total order.
pub proof fn lemma_byte_order_total()
    ensures
        total_ordering(byte_order()),
{
    let r = byte_order();
    assert forall|x: Seq<u8>| #[trigger] r(x, x) by {
        lemma_bytes_le_reflexive(x);
    }
    assert forall|x: Seq<u8>, y: Seq<u8>| #[trigger] r(x, y) && #[trigger] r(y, x) implies x == y by {
        lemma_bytes_le_antisymmetric(x, y);
    }
    assert forall|x: Seq<u8>, y: Seq<u8>, z: Seq<u8>|
        #[trigger] r(x, y) && #[trigger] r(y, z) implies r(x, z) by {
        lemma_bytes_le_transitive(x, y, z);
    }
    assert forall|x: Seq<u8>, y: Seq<u8>| #[trigger] r(x, y) || #[trigger] r(y, x) by {
        lemma_bytes_le_total(x, y);
    }
}

/// Two sequences sorted by the same total order that hold the same elements
/// (with multiplicity) are equal.
pub proof fn lemma_sorted_permutation_unique<A>(a: Seq<A>, b: Seq<A>, leq: spec_fn(A, A) -> bool)
    requires
        total_ordering(leq),
        sorted_by(a, leq),
        sorted_by(b, leq),
        a.to_multiset() == b.to_multiset(),
    ensures
        a == b,
    decreases a.len(),
{
    broadcast use vstd::seq_lib::group_to_multiset_ensures;

    if a.len() == 0 {
        assert(b.to_multiset().len() == 0);
        assert(a =~= b);
    } else {
        assert(a.to_multiset().len() == a.len());
        assert(b.to_multiset().len() == b.len());
        assert(b.len() == a.len());
        assert(a.contains(a[0]));
        assert(a.to_multiset().count(a[0]) > 0);
        assert(b.to_multiset().count(a[0]) > 0);
        assert(b.contains(a[0]));
        assert(b.contains(b[0]));
        assert(b.to_multiset().count(b[0]) > 0);
        assert(a.to_multiset().count(b[0]) > 0);
        assert(a.contains(b[0]));
        let i = choose|i: int| 0 <= i < b.len() && b[i] == a[0];
        let j = choose|j: int| 0 <= j < a.len() && a[j] == b[0];
        if i > 0 {
            assert(leq(b[0], b[i]));
        }
        if j > 0 {
            assert(leq(a[0], a[j]));
        }
        assert(leq(b[0], a[0]));
        assert(leq(a[0], b[0]));
        assert(a[0] == b[0]);
        assert(a.remove(0) =~= a.drop_first());
        assert(b.remove(0) =~= b.drop_first());
        assert(a.drop_first().to_multiset() == b.drop_first().to_multiset());
        assert(sorted_by(a.drop_first(), leq)) by {
            assert forall|x: int, y: int| 0 <= x < y < a.drop_first().len() implies
                #[trigger] leq(a.drop_first()[x], a.drop_first()[y]) by {
                assert(leq(a[x + 1], a[y + 1]));
            }
        }
        assert(sorted_by(b.drop_first(), leq)) by {
            assert forall|x: int, y: int| 0 <= x < y < b.drop_first().len() implies
                #[trigger] leq(b.drop_first()[x], b.drop_first()[y]) by {
                assert(leq(b[x + 1], b[y + 1]));
            }
        }
        lemma_sorted_permutation_unique(a.drop_first(), b.drop_first(), leq);
        assert forall|k: int| 0 <= k < a.len() implies a[k] == b[k] by {
            if k > 0 {
                assert(a[k] == a.drop_first()[k - 1]);
                assert(b[k] == b.drop_first()[k - 1]);
            }
        }
        assert(a =~= b);
    }
}


/// Byte-wise lexicographic comparison: `a <= b` in `str`/`[u8]` order.
pub fn bytes_le_exec(a: &[u8], b: &[u8]) -> (le: bool)
    ensures
        le == bytes_le(a@, b@),
{
    let mut i: usize = 0;
    assert(a@.skip(0) =~= a@);
    assert(b@.skip(0) =~= b@);
    while i < a.len() && i < b.len()
        invariant
            i <= a@.len(),
            i <= b@.len(),
            bytes_le(a@, b@) == bytes_le(a@.skip(i as int), b@.skip(i as int)),
        decreases a@.len() - i,
    {
        if a[i] != b[i] {
            return a[i] < b[i];
        }
        assert(a@.skip(i as int).drop_first() =~= a@.skip(i as int + 1));
        assert(b@.skip(i as int).drop_first() =~= b@.skip(i as int + 1));
        i += 1;
    }
    i == a.len()
}

/// The byte strings of a sequence of `Vec<u8>`.
pub open spec fn byte_vecs_view(v: Seq<Vec<u8>>) -> Seq<Seq<u8>> {
    v.map_values(|x: Vec<u8>| x@)
}

/// The UTF-8 encodings of a sequence of string slices.
pub open spec fn signature_bytes(sigs: Seq<&str>) -> Seq<Seq<u8>> {
    sigs.map_values(|s: &str| s.spec_bytes())
}

/// Byte strings joined with a newline (`0x0a`) between consecutive entries.
pub open spec fn join_lines(lines: Seq<Seq<u8>>) -> Seq<u8>
    decreases lines.len(),
{
    if lines.len() == 0 {
        Seq::empty()
    } else if lines.len() == 1 {
        lines[0]
    } else {
        join_lines(lines.drop_last()) + seq![10u8] + lines.last()
    }
}

/// The interface hash of a signature set: FNV-1a over the signatures sorted in
/// byte order and joined with newlines.
pub open spec fn interface_hash_spec(sigs: Seq<Seq<u8>>) -> u64 {
    fnv1a_spec(join_lines(sigs.sort_by(byte_order())))
}

/// Insertion-sort the signatures' bytes into byte order.
fn sorted_signature_bytes(signatures: &[&str]) -> (out: Vec<Vec<u8>>)
    ensures
        sorted_by(byte_vecs_view(out@), byte_order()),
        byte_vecs_view(out@).to_multiset() == signature_bytes(signatures@).to_multiset(),
{
    broadcast use vstd::seq_lib::group_to_multiset_ensures;

    let mut out: Vec<Vec<u8>> = Vec::new();
    let n = signatures.len();
    let ghost input = signature_bytes(signatures@);
    assert(byte_vecs_view(out@) =~= input.take(0));
    for i in 0..n
        invariant
            n == signatures@.len(),
            input == signature_bytes(signatures@),
            sorted_by(byte_vecs_view(out@), byte_order()),
            byte_vecs_view(out@).to_multiset() == input.take(i as int).to_multiset(),
    {
        let x: Vec<u8> = vstd::slice::slice_to_vec(signatures[i].as_bytes());
        let ghost g = byte_vecs_view(out@);
        let mut j: usize = 0;
        while j < out.len() && bytes_le_exec(out[j].as_slice(), x.as_slice())
            invariant
                j <= out@.len(),
                g == byte_vecs_view(out@),
                forall|k: int| 0 <= k < j ==> bytes_le(#[trigger] g[k], x@),
            decreases out@.len() - j,
        {
            j += 1;
        }
        proof {
            if j < out@.len() {
                lemma_bytes_le_total(g[j as int], x@);
            }
        }
        out.insert(j, x);
        let ghost g2 = byte_vecs_view(out@);
        assert(g2 =~= g.insert(j as int, x@));
        assert(sorted_by(g2, byte_order())) by {
            assert forall|p: int, q: int| 0 <= p < q < g2.len() implies
                #[trigger] byte_order()(g2[p], g2[q]) by {
                if q < j {
                    assert(byte_order()(g[p], g[q]));
                } else if q == j {
                } else if p < j {
                    assert(byte_order()(g[p], g[q - 1]));
                } else if p == j {
                    if q - 1 > j {
                        assert(byte_order()(g[j as int], g[q - 1]));
                        lemma_bytes_le_transitive(x@, g[j as int], g[q - 1]);
                    }
                } else {
                    assert(byte_order()(g[p - 1], g[q - 1]));
                }
            }
        }
        assert(g2.remove(j as int) =~= g);
        assert(g2.to_multiset().count(x@) > 0) by {
            g2.to_multiset_ensures();
            assert(g2[j as int] == x@);
            assert(g2.contains(x@));
        }
        proof {
            g2.to_multiset_ensures();
        }
        assert(g2.to_multiset() =~= g.to_multiset().insert(x@));
        assert(x@ == input[i as int]);
        assert(input.take(i as int + 1) =~= input.take(i as int).push(x@));
        proof {
            input.take(i as int).to_multiset_ensures();
        }
    }
    assert(input.take(n as int) =~= input);
    out
}


/// The hash of a method-signature set. Order-independent: the signatures are
/// sorted (byte order) and joined with `\n` before hashing with FNV-1a.
pub fn interface_hash(signatures: &[&str]) -> (hash: u64)
    ensures
        hash == interface_hash_spec(signature_bytes(signatures@)),
{
    let sorted = sorted_signature_bytes(signatures);
    let ghost lines = byte_vecs_view(sorted@);
    proof {
        lemma_byte_order_total();
        signature_bytes(signatures@).lemma_sort_by_ensures(byte_order());
        lemma_sorted_permutation_unique(
            lines,
            signature_bytes(signatures@).sort_by(byte_order()),
            byte_order(),
        );
    }
    let mut combined: Vec<u8> = Vec::new();
    let n = sorted.len();
    for i in 0..n
        invariant
            n == sorted@.len(),
            lines == byte_vecs_view(sorted@),
            combined@ == join_lines(lines.take(i as int)),
    {
        let ghost before = combined@;
        if i > 0 {
            combined.push(10u8);
        }
        combined.extend_from_slice(sorted[i].as_slice());
        assert(lines.take(i as int + 1).drop_last() =~= lines.take(i as int));
        if i == 0 {
            assert(combined@ =~= lines[0]);
        } else {
            assert(combined@ =~= before + seq![10u8] + lines[i as int]);
        }
    }
    assert(lines.take(n as int) =~= lines);
    fnv1a(combined.as_slice())
}

/// Reordering the signatures never changes the interface hash.
pub proof fn lemma_interface_hash_order_independent(a: Seq<Seq<u8>>, b: Seq<Seq<u8>>)
    requires
        a.to_multiset() == b.to_multiset(),
    ensures
        interface_hash_spec(a) == interface_hash_spec(b),
{
    lemma_byte_order_total();
    a.lemma_sort_by_ensures(byte_order());
    b.lemma_sort_by_ensures(byte_order());
    lemma_sorted_permutation_unique(a.sort_by(byte_order()), b.sort_by(byte_order()), byte_order());
}


/// Character strings joined with a single separator character between entries.
pub open spec fn join_chars(parts: Seq<Seq<char>>, sep: char) -> Seq<char>
    decreases parts.len(),
{
    if parts.len() == 0 {
        Seq::empty()
    } else if parts.len() == 1 {
        parts[0]
    } else {
        join_chars(parts.drop_last(), sep) + seq![sep] + parts.last()
    }
}

/// The views of a sequence of owned strings.
pub open spec fn strings_view(v: Seq<String>) -> Seq<Seq<char>> {
    v.map_values(|s: String| s@)
}

/// `name:arg1,arg2->ret`, with `!raw` appended for raw-wire methods.
pub open spec fn signature_string_spec(
    name: Seq<char>,
    arg_types: Seq<Seq<char>>,
    ret: Seq<char>,
    wire_raw: bool,
) -> Seq<char> {
    name + seq![':'] + join_chars(arg_types, ',') + seq!['-', '>'] + ret + if wire_raw {
        seq!['!', 'r', 'a', 'w']
    } else {
        Seq::empty()
    }
}

/// Builds the canonical signature string for one method.
pub fn signature_string(name: &str, arg_types: &[String], ret: &str, wire_raw: bool) -> (sig:
    String)
    ensures
        sig@ == signature_string_spec(name@, strings_view(arg_types@), ret@, wire_raw),
{
    let ghost args = strings_view(arg_types@);
    let mut out = String::from_str(name);
    out.append(":");
    proof {
        reveal_strlit(":");
        assert(args.take(0) =~= Seq::<Seq<char>>::empty());
        assert(out@ =~= name@ + seq![':'] + join_chars(args.take(0), ','));
    }
    let n = arg_types.len();
    for i in 0..n
        invariant
            n == arg_types@.len(),
            args == strings_view(arg_types@),
            out@ == name@ + seq![':'] + join_chars(args.take(i as int), ','),
    {
        proof {
            reveal_strlit(",");
            reveal_strlit(":");
        }
        let ghost before = out@;
        if i > 0 {
            out.append(",");
        }
        out.append(arg_types[i].as_str());
        assert(args.take(i as int + 1).drop_last() =~= args.take(i as int));
        if i == 0 {
            assert(out@ =~= name@ + seq![':'] + args[0]);
        } else {
            assert(out@ =~= before + seq![','] + args[i as int]);
        }
    }
    assert(args.take(n as int) =~= args);
    out.append("->");
    out.append(ret);
    if wire_raw {
        out.append("!raw");
    }
    proof {
        reveal_strlit(":");
        reveal_strlit("->");
        reveal_strlit("!raw");
    }
    assert(out@ =~= signature_string_spec(name@, args, ret@, wire_raw));
    out
}

/// Where the `i`-th of `lines` starts once they are joined: after every
/// earlier line and one separator byte behind each.
#[verifier::opaque]
pub open spec fn line_start(lines: Seq<Seq<u8>>, i: int) -> int
    decreases i,
{
    if i <= 0 {
        0
    } else {
        line_start(lines, i - 1) + lines[i - 1].len() + 1
    }
}

proof fn lemma_line_start_prefix(lines: Seq<Seq<u8>>, i: int)
    requires
        0 <= i < lines.len(),
    ensures
        line_start(lines.drop_last(), i) == line_start(lines, i),
    decreases i,
{
    reveal(line_start);
    if i > 0 {
        lemma_line_start_prefix(lines, i - 1);
    }
}

proof fn lemma_line_start_step(lines: Seq<Seq<u8>>, i: int)
    requires
        0 < i,
    ensures
        line_start(lines, i) == line_start(lines, i - 1) + lines[i - 1].len() + 1,
        line_start(lines, 0) == 0,
{
    reveal(line_start);
}

proof fn lemma_line_start_bounds(lines: Seq<Seq<u8>>, i: int, k: int)
    requires
        0 <= i < k,
    ensures
        0 <= line_start(lines, i),
        line_start(lines, i) + lines[i].len() + 1 <= line_start(lines, k),
    decreases k,
{
    lemma_line_start_step(lines, k);
    if i < k - 1 {
        lemma_line_start_bounds(lines, i, k - 1);
    } else {
        if i > 0 {
            lemma_line_start_bounds(lines, 0, i);
            lemma_line_start_step(lines, 1);
        }
    }
}

proof fn lemma_subrange_of_front(front: Seq<u8>, back: Seq<u8>, a: int, len: int)
    requires
        0 <= a,
        0 <= len,
        a + len <= front.len(),
    ensures
        (front + back).subrange(a, a + len) == front.subrange(a, a + len),
        a + len < front.len() ==> (front + back)[a + len] == front[a + len],
{
    assert((front + back).subrange(a, a + len) =~= front.subrange(a, a + len));
}

/// Joining lines puts exactly one newline between each consecutive pair and
/// nothing else: the joined bytes are as long as the lines plus one byte per
/// gap, each line stands whole at its place, and a newline follows every
/// line but the last.
#[verifier::spinoff_prover]
#[verifier::rlimit(60)]
pub proof fn lemma_join_lines_layout(lines: Seq<Seq<u8>>)
    requires
        lines.len() >= 1,
    ensures
        join_lines(lines).len() == line_start(lines, lines.len() as int) - 1,
        forall|i: int|
            0 <= i < lines.len() ==> join_lines(lines).subrange(
                line_start(lines, i),
                line_start(lines, i) + lines[i].len(),
            ) == #[trigger] lines[i],
        forall|i: int|
            0 <= i < lines.len() - 1 ==> join_lines(lines)[line_start(lines, i) + #[trigger] lines[i].len()]
                == 10u8,
    decreases lines.len(),
{
    let n = lines.len() as int;
    if n == 1 {
        lemma_line_start_step(lines, 1);
        assert(lines[0].subrange(0, lines[0].len() as int) =~= lines[0]);
    } else {
        let init = lines.drop_last();
        let last = lines.last();
        lemma_join_lines_layout(init);
        let j = join_lines(lines);
        let ji = join_lines(init);
        let tail = seq![10u8] + last;
        assert(j =~= ji + tail);
        let l = ji.len() as int;
        lemma_line_start_prefix(lines, n - 1);
        assert(line_start(lines, n - 1) == l + 1);
        lemma_line_start_step(lines, n);
        assert forall|i: int| 0 <= i < n implies j.subrange(
            line_start(lines, i),
            line_start(lines, i) + lines[i].len(),
        ) == #[trigger] lines[i] by {
            if i < n - 1 {
                lemma_line_start_prefix(lines, i);
                assert(init[i] == lines[i]);
                let a = line_start(init, i);
                lemma_line_start_bounds(init, i, n - 1);
                assert(ji.subrange(a, a + init[i].len()) == init[i]);
                lemma_subrange_of_front(ji, tail, a, init[i].len() as int);
            } else {
                assert(j.subrange(l + 1, l + 1 + last.len()) =~= last);
            }
        }
        assert forall|i: int| 0 <= i < n - 1 implies j[line_start(lines, i) + #[trigger] lines[i].len()]
            == 10u8 by {
            lemma_line_start_prefix(lines, i);
            assert(init[i] == lines[i]);
            let a = line_start(init, i);
            lemma_line_start_bounds(init, i, n - 1);
            if i < n - 2 {
                lemma_line_start_bounds(init, i + 1, n - 1);
                lemma_line_start_step(init, i + 1);
                assert(ji[a + init[i].len()] == 10u8);
                lemma_subrange_of_front(ji, tail, a, init[i].len() as int);
            } else {
                lemma_line_start_step(init, n - 1);
                assert(a + init[i].len() == l);
                assert(j[l] == tail[0]);
            }
        }
    }
}

} // verus!
