//! Labels of simulated peers: `gateway-<n>` for gateways and `node-<n>` for regular nodes.
use vstd::prelude::*;

use crate::text::append_decimal;
use crate::text::chars_of;
use crate::text::parse_number;
use crate::text::starts_with;
use crate::text::text_no_later;

verus! {

use crate::text::decimal;
use crate::text::has_prefix;
use crate::text::lemma_decimal_injective;
use crate::text::lemma_decimal_parses;
use crate::text::parsed;
use crate::text::text_le;

/// The text of the label of gateway `id`.
pub open spec fn gateway_text(id: nat) -> Seq<char> {
    "gateway-"@ + decimal(id)
}

/// The text of the label of regular node `id`.
pub open spec fn node_text(id: nat) -> Seq<char> {
    "node-"@ + decimal(id)
}

/// What follows the dash of a label.
pub open spec fn number_part(s: Seq<char>) -> Seq<char> {
    if has_prefix(s, "gateway-"@) {
        s.skip("gateway-"@.len() as int)
    } else {
        s.skip("node-"@.len() as int)
    }
}

/// Whether `s` is one of the two prefixes and a number of at most `max`.
pub open spec fn is_label(s: Seq<char>, max: nat) -> bool {
    &&& has_prefix(s, "gateway-"@) || has_prefix(s, "node-"@)
    &&& parsed(number_part(s), max) is Some
}

/// The label of a peer of the simulation.
#[derive(Eq, PartialOrd, Ord, Hash, Debug)]
pub struct NodeLabel {
    text: String,
}

impl View for NodeLabel {
    type V = Seq<char>;

    closed spec fn view(&self) -> Seq<char> {
        self.text@
    }
}

impl Clone for NodeLabel {
    fn clone(&self) -> (r: Self)
        ensures
            r@ == self@,
    {
        proof {
            use_type_invariant(self);
        }
        NodeLabel { text: self.text.clone() }
    }
}

impl PartialEq for NodeLabel {
    fn eq(&self, other: &Self) -> (r: bool) {
        self.text == other.text
    }
}

impl vstd::std_specs::cmp::PartialEqSpecImpl for NodeLabel {
    open spec fn obeys_eq_spec() -> bool {
        true
    }

    open spec fn eq_spec(&self, other: &Self) -> bool {
        self@ == other@
    }
}

impl NodeLabel {
    #[verifier::type_invariant]
    spec fn inv(self) -> bool {
        is_label(self.text@, usize::MAX as nat)
    }

    /// The label of gateway `id`.
    pub fn gateway(id: usize) -> (r: Self)
        ensures
            r@ == gateway_text(id as nat),
    {
        let mut text: String = "gateway-".to_string();
        append_decimal(&mut text, id as u64);
        proof {
            lemma_gateway_label(id as nat, usize::MAX as nat);
        }
        NodeLabel { text }
    }

    /// The label of regular node `id`.
    pub fn node(id: usize) -> (r: Self)
        ensures
            r@ == node_text(id as nat),
    {
        let mut text: String = "node-".to_string();
        append_decimal(&mut text, id as u64);
        proof {
            lemma_node_label(id as nat, usize::MAX as nat);
        }
        NodeLabel { text }
    }

    /// Whether this is the label of a gateway.
    pub fn is_gateway(&self) -> (r: bool)
        ensures
            r == has_prefix(self@, "gateway"@),
    {
        let chars: Vec<char> = chars_of(self.text.as_str());
        starts_with(&chars, "gateway")
    }

    /// Whether this is the label of a regular node.
    pub fn is_node(&self) -> (r: bool)
        ensures
            r == has_prefix(self@, "node"@),
    {
        let chars: Vec<char> = chars_of(self.text.as_str());
        starts_with(&chars, "node")
    }

    /// The number of the peer.
    pub fn number(&self) -> (r: usize)
        ensures
            parsed(number_part(self@), usize::MAX as nat) == Some(r as nat),
    {
        proof {
            use_type_invariant(self);
            reveal_strlit("gateway-");
            reveal_strlit("node-");
        }
        let chars: Vec<char> = chars_of(self.text.as_str());
        let from: usize = if starts_with(&chars, "gateway-") {
            8
        } else {
            5
        };
        match parse_number(&chars, from, usize::MAX as u64) {
            Some(n) => n as usize,
            None => vstd::pervasive::unreached(),
        }
    }

    /// The text of the label.
    pub fn as_str(&self) -> (r: &str)
        ensures
            r@ == self@,
    {
        self.text.as_str()
    }

    /// The text of the label, as a string of its own.
    pub fn to_string(&self) -> (r: String)
        ensures
            r@ == self@,
    {
        self.text.clone()
    }

    /// Whether `value` is the text of a label: `gateway-` or `node-` and a number that fits in
    /// sixteen bits.
    pub fn accepts(value: &str) -> (r: bool)
        ensures
            r == is_label(value@, u16::MAX as nat),
    {
        proof {
            reveal_strlit("gateway-");
            reveal_strlit("node-");
        }
        let chars: Vec<char> = chars_of(value);
        let from: usize = if starts_with(&chars, "gateway-") {
            8
        } else if starts_with(&chars, "node-") {
            5
        } else {
            return false;
        };
        parse_number(&chars, from, u16::MAX as u64).is_some()
    }

    /// The label with the text `value`.
    pub fn from(value: &str) -> (r: Self)
        requires
            is_label(value@, u16::MAX as nat),
        ensures
            r@ == value@,
    {
        NodeLabel { text: value.to_string() }
    }

    /// Whether this label comes no later than `other` in the order of labels.
    pub fn no_later(&self, other: &Self) -> (r: bool)
        ensures
            r == text_le(self@, other@),
    {
        text_no_later(self.text.as_str(), other.text.as_str())
    }
}

proof fn lemma_gateway_label(id: nat, max: nat)
    requires
        id <= max,
    ensures
        has_prefix(gateway_text(id), "gateway-"@),
        number_part(gateway_text(id)) == decimal(id),
        is_label(gateway_text(id), max),
{
    reveal_strlit("gateway-");
    lemma_decimal_parses(id, max);
    assert(gateway_text(id).take(8) =~= "gateway-"@);
    assert(gateway_text(id).skip(8) =~= decimal(id));
}

proof fn lemma_node_label(id: nat, max: nat)
    requires
        id <= max,
    ensures
        has_prefix(node_text(id), "node-"@),
        !has_prefix(node_text(id), "gateway-"@),
        number_part(node_text(id)) == decimal(id),
        is_label(node_text(id), max),
{
    reveal_strlit("gateway-");
    reveal_strlit("node-");
    lemma_decimal_parses(id, max);
    assert(node_text(id).take(5) =~= "node-"@);
    assert(node_text(id).skip(5) =~= decimal(id));
    assert(node_text(id)[0] == 'n');
    if has_prefix(node_text(id), "gateway-"@) {
        assert(node_text(id).take(8)[0] == 'g');
    }
}

/// The label of gateway `id` is a gateway's and no regular node's, and its number is `id`.
pub proof fn law_gateway_label_reads_back(id: nat)
    requires
        id <= usize::MAX,
    ensures
        has_prefix(gateway_text(id), "gateway"@),
        !has_prefix(gateway_text(id), "node"@),
        parsed(number_part(gateway_text(id)), usize::MAX as nat) == Some(id),
{
    lemma_gateway_label(id, usize::MAX as nat);
    lemma_decimal_parses(id, usize::MAX as nat);
    reveal_strlit("gateway-");
    reveal_strlit("gateway");
    reveal_strlit("node");
    assert(gateway_text(id).take(7) =~= "gateway"@);
    if has_prefix(gateway_text(id), "node"@) {
        assert(gateway_text(id)[0] == 'g');
        assert(gateway_text(id).take(4)[0] == 'n');
    }
}

/// The label of regular node `id` is a regular node's and no gateway's, and its number is `id`.
pub proof fn law_node_label_reads_back(id: nat)
    requires
        id <= usize::MAX,
    ensures
        has_prefix(node_text(id), "node"@),
        !has_prefix(node_text(id), "gateway"@),
        parsed(number_part(node_text(id)), usize::MAX as nat) == Some(id),
{
    lemma_node_label(id, usize::MAX as nat);
    lemma_decimal_parses(id, usize::MAX as nat);
    reveal_strlit("node-");
    reveal_strlit("gateway");
    reveal_strlit("node");
    assert(node_text(id).take(4) =~= "node"@);
    if has_prefix(node_text(id), "gateway"@) {
        assert(node_text(id)[0] == 'n');
        assert(node_text(id).take(7)[0] == 'g');
    }
}

/// The text of a label is read as a label again exactly where its number fits in sixteen bits.
pub proof fn law_labels_are_read_up_to_a_bound(id: nat)
    ensures
        is_label(gateway_text(id), u16::MAX as nat) <==> id <= u16::MAX,
        is_label(node_text(id), u16::MAX as nat) <==> id <= u16::MAX,
{
    lemma_gateway_label(id, id);
    lemma_node_label(id, id);
    lemma_decimal_parses(id, id);
}

/// Labels of different peers differ.
pub proof fn law_labels_distinct(a: nat, b: nat)
    ensures
        gateway_text(a) == gateway_text(b) ==> a == b,
        node_text(a) == node_text(b) ==> a == b,
        gateway_text(a) != node_text(b),
{
    reveal_strlit("gateway-");
    reveal_strlit("node-");
    assert(gateway_text(a).skip(8) =~= decimal(a));
    assert(gateway_text(b).skip(8) =~= decimal(b));
    assert(node_text(a).skip(5) =~= decimal(a));
    assert(node_text(b).skip(5) =~= decimal(b));
    if gateway_text(a) == gateway_text(b) {
        lemma_decimal_injective(a, b);
    }
    if node_text(a) == node_text(b) {
        lemma_decimal_injective(a, b);
    }
    assert(gateway_text(a)[0] == 'g');
    assert(node_text(b)[0] == 'n');
}

/// Every label is a gateway's or a regular node's, and never both.
pub proof fn law_label_kind(s: Seq<char>)
    requires
        is_label(s, usize::MAX as nat),
    ensures
        has_prefix(s, "gateway"@) != has_prefix(s, "node"@),
{
    reveal_strlit("gateway-");
    reveal_strlit("node-");
    reveal_strlit("gateway");
    reveal_strlit("node");
    if has_prefix(s, "gateway-"@) {
        assert(s.take(8)[0] == 'g');
        assert forall|i: int| 0 <= i < 7 implies s.take(7)[i] == "gateway"@[i] by {
            assert(s.take(8)[i] == "gateway-"@[i]);
        }
        assert(s.take(7) =~= "gateway"@);
        if has_prefix(s, "node"@) {
            assert(s.take(4)[0] == 'n');
        }
    } else {
        assert(s.take(5)[0] == 'n');
        assert forall|i: int| 0 <= i < 4 implies s.take(4)[i] == "node"@[i] by {
            assert(s.take(5)[i] == "node-"@[i]);
        }
        assert(s.take(4) =~= "node"@);
        if has_prefix(s, "gateway"@) {
            assert(s.take(7)[0] == 'g');
        }
    }
}

/// A label is the word for its kind, a dash, and its number in base ten.
pub proof fn law_label_texts(id: nat)
    ensures
        gateway_text(id) == seq!['g', 'a', 't', 'e', 'w', 'a', 'y', '-'] + decimal(id),
        node_text(id) == seq!['n', 'o', 'd', 'e', '-'] + decimal(id),
{
    reveal_strlit("gateway-");
    reveal_strlit("node-");
    assert("gateway-"@ =~= seq!['g', 'a', 't', 'e', 'w', 'a', 'y', '-']);
    assert("node-"@ =~= seq!['n', 'o', 'd', 'e', '-']);
}

/// What follows the dash is read as the number, and a text is a label exactly where it has one of
/// the two beginnings and a number that is not too large behind it.
pub proof fn law_labels_are_a_kind_and_a_number(rest: Seq<char>, s: Seq<char>, max: nat)
    ensures
        number_part(seq!['g', 'a', 't', 'e', 'w', 'a', 'y', '-'] + rest) == rest,
        number_part(seq!['n', 'o', 'd', 'e', '-'] + rest) == rest,
        is_label(seq!['g', 'a', 't', 'e', 'w', 'a', 'y', '-'] + rest, max) <==> parsed(rest, max)
            is Some,
        is_label(seq!['n', 'o', 'd', 'e', '-'] + rest, max) <==> parsed(rest, max) is Some,
        is_label(s, max) ==> s == seq!['g', 'a', 't', 'e', 'w', 'a', 'y', '-'] + s.skip(8) || s
            == seq!['n', 'o', 'd', 'e', '-'] + s.skip(5),
{
    reveal_strlit("gateway-");
    reveal_strlit("node-");
    let g = seq!['g', 'a', 't', 'e', 'w', 'a', 'y', '-'];
    let n = seq!['n', 'o', 'd', 'e', '-'];
    assert("gateway-"@ =~= g);
    assert("node-"@ =~= n);
    assert((g + rest).take(8) =~= g);
    assert((g + rest).skip(8) =~= rest);
    assert((n + rest).take(5) =~= n);
    assert((n + rest).skip(5) =~= rest);
    if has_prefix(n + rest, g) {
        assert((n + rest).take(8)[0] == 'g');
        assert((n + rest)[0] == 'n');
    }
    if is_label(s, max) {
        if has_prefix(s, g) {
            assert(s =~= g + s.skip(8));
        } else {
            assert(s =~= n + s.skip(5));
        }
    }
}

} // verus!
