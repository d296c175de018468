//! The fixed byte patterns of the scene-description grammar and of the
//! rendered tree: directive prefixes, attribute markers, and the box-drawing
//! glyphs (UTF-8 encoded) the renderer emits.

use vstd::prelude::*;

verus! {

/// Names for every fixed byte pattern the library matches or emits.
#[derive(Clone, Copy, PartialEq, Eq, Structural)]
pub enum PatId {
    /// Opening of an external-resource declaration line.
    ExtPrefix,
    /// Opening of a sub-resource declaration line, up to the type value.
    SubPrefix,
    /// Marker between a sub-resource's type value and its id value.
    IdMid,
    /// Opening of a node declaration line, up to the name value.
    NodePrefix,
    /// Marker introducing a node's type attribute.
    TypeAttr,
    /// Marker introducing a node's parent attribute.
    ParentAttr,
    /// Marker introducing a node's index attribute.
    IndexAttr,
    /// Marker introducing a node's instanced-resource attribute.
    InstAttr,
    /// Opening of a connection declaration line, up to the signal value.
    ConnPrefix,
    /// Marker between a connection's signal and its origin value.
    FromMid,
    /// Marker between a connection's origin and its target value.
    ToMid,
    /// Marker between a connection's target and its method value.
    MethodMid,
    /// Closing of a connection declaration after the method value.
    ConnEnd,
    /// The word an external-resource reference value begins with.
    ExtWord,
    /// The word a sub-resource reference value begins with.
    SubWord,
    /// An external-resource reference up to its opening parenthesis.
    ExtParen,
    /// A sub-resource reference up to its opening parenthesis.
    SubParen,
    /// The quote-space boundary that separates declaration fields.
    QuoteSpace,
    /// The equals-quote boundary that separates a field key from its value.
    EqQuote,
    /// The spaced equals sign of a bare assignment line.
    AssignMid,
    /// Field key of an external resource's path.
    KeyPath,
    /// Field key of an external resource's type.
    KeyType,
    /// Field key of an external resource's stable identifier.
    KeyUid,
    /// Field key of an external resource's id.
    KeyId,
    /// Branch glyph of a child that is followed by further children.
    Tee,
    /// Branch glyph of a node's last child.
    Ell,
    /// Vertical continuation guide for content above remaining children.
    Guide,
    /// Four-space continuation under a last child.
    Blank4,
    /// Six-space indent before a nested sub-parameter list.
    Blank6,
    /// Bullet before a content line.
    Star,
    /// Separator between a parameter key and its value.
    ColonSp,
    /// Bullet and label before a connection line.
    ConnLabel,
    /// Separator inside a connection endpoint.
    Colon,
    /// Call parentheses and arrow between a connection's two endpoints.
    ArrowMid,
    /// Call parentheses closing a connection line.
    ParenPair,
    /// Space and opening parenthesis before a type tag.
    SpLParen,
    /// Opening parenthesis of a resolved resource display.
    LParen,
    /// Closing parenthesis and space between a type tag and a path.
    RParenSp,
    /// Closing parenthesis of a type tag.
    RParen,
    /// Line terminator of the rendered output.
    Newline,
}

/// The bytes of each fixed pattern.
pub open spec fn pat(id: PatId) -> Seq<u8> {
    match id {
        PatId::ExtPrefix => seq![
            91u8,
            101u8,
            120u8,
            116u8,
            95u8,
            114u8,
            101u8,
            115u8,
            111u8,
            117u8,
            114u8,
            99u8,
            101u8,
            32u8,
        ],
        PatId::SubPrefix => seq![
            91u8,
            115u8,
            117u8,
            98u8,
            95u8,
            114u8,
            101u8,
            115u8,
            111u8,
            117u8,
            114u8,
            99u8,
            101u8,
            32u8,
            116u8,
            121u8,
            112u8,
            101u8,
            61u8,
            34u8,
        ],
        PatId::IdMid => seq![34u8, 32u8, 105u8, 100u8, 61u8, 34u8],
        PatId::NodePrefix => seq![
            91u8,
            110u8,
            111u8,
            100u8,
            101u8,
            32u8,
            110u8,
            97u8,
            109u8,
            101u8,
            61u8,
            34u8,
        ],
        PatId::TypeAttr => seq![116u8, 121u8, 112u8, 101u8, 61u8, 34u8],
        PatId::ParentAttr => seq![112u8, 97u8, 114u8, 101u8, 110u8, 116u8, 61u8, 34u8],
        PatId::IndexAttr => seq![105u8, 110u8, 100u8, 101u8, 120u8, 61u8, 34u8],
        PatId::InstAttr => seq![
            105u8,
            110u8,
            115u8,
            116u8,
            97u8,
            110u8,
            99u8,
            101u8,
            61u8,
            69u8,
            120u8,
            116u8,
            82u8,
            101u8,
            115u8,
            111u8,
            117u8,
            114u8,
            99u8,
            101u8,
            40u8,
        ],
        PatId::ConnPrefix => seq![
            91u8,
            99u8,
            111u8,
            110u8,
            110u8,
            101u8,
            99u8,
            116u8,
            105u8,
            111u8,
            110u8,
            32u8,
            115u8,
            105u8,
            103u8,
            110u8,
            97u8,
            108u8,
            61u8,
            34u8,
        ],
        PatId::FromMid => seq![34u8, 32u8, 102u8, 114u8, 111u8, 109u8, 61u8, 34u8],
        PatId::ToMid => seq![34u8, 32u8, 116u8, 111u8, 61u8, 34u8],
        PatId::MethodMid => seq![34u8, 32u8, 109u8, 101u8, 116u8, 104u8, 111u8, 100u8, 61u8, 34u8],
        PatId::ConnEnd => seq![34u8, 93u8],
        PatId::ExtWord => seq![
            69u8,
            120u8,
            116u8,
            82u8,
            101u8,
            115u8,
            111u8,
            117u8,
            114u8,
            99u8,
            101u8,
        ],
        PatId::SubWord => seq![
            83u8,
            117u8,
            98u8,
            82u8,
            101u8,
            115u8,
            111u8,
            117u8,
            114u8,
            99u8,
            101u8,
        ],
        PatId::ExtParen => seq![
            69u8,
            120u8,
            116u8,
            82u8,
            101u8,
            115u8,
            111u8,
            117u8,
            114u8,
            99u8,
            101u8,
            40u8,
        ],
        PatId::SubParen => seq![
            83u8,
            117u8,
            98u8,
            82u8,
            101u8,
            115u8,
            111u8,
            117u8,
            114u8,
            99u8,
            101u8,
            40u8,
        ],
        PatId::QuoteSpace => seq![34u8, 32u8],
        PatId::EqQuote => seq![61u8, 34u8],
        PatId::AssignMid => seq![32u8, 61u8, 32u8],
        PatId::KeyPath => seq![112u8, 97u8, 116u8, 104u8],
        PatId::KeyType => seq![116u8, 121u8, 112u8, 101u8],
        PatId::KeyUid => seq![117u8, 105u8, 100u8],
        PatId::KeyId => seq![105u8, 100u8],
        PatId::Tee => seq![226u8, 148u8, 156u8, 226u8, 148u8, 128u8, 226u8, 148u8, 128u8, 32u8],
        PatId::Ell => seq![226u8, 148u8, 148u8, 226u8, 148u8, 128u8, 226u8, 148u8, 128u8, 32u8],
        PatId::Guide => seq![226u8, 148u8, 130u8, 32u8, 32u8, 32u8],
        PatId::Blank4 => seq![32u8, 32u8, 32u8, 32u8],
        PatId::Blank6 => seq![32u8, 32u8, 32u8, 32u8, 32u8, 32u8],
        PatId::Star => seq![42u8, 32u8],
        PatId::ColonSp => seq![58u8, 32u8],
        PatId::ConnLabel => seq![
            42u8,
            32u8,
            99u8,
            111u8,
            110u8,
            110u8,
            101u8,
            99u8,
            116u8,
            105u8,
            111u8,
            110u8,
            58u8,
            32u8,
        ],
        PatId::Colon => seq![58u8],
        PatId::ArrowMid => seq![40u8, 41u8, 32u8, 61u8, 62u8, 32u8],
        PatId::ParenPair => seq![40u8, 41u8],
        PatId::SpLParen => seq![32u8, 40u8],
        PatId::LParen => seq![40u8],
        PatId::RParenSp => seq![41u8, 32u8],
        PatId::RParen => seq![41u8],
        PatId::Newline => seq![10u8],
    }
}

/// Build the bytes of a fixed pattern.
#[verifier::rlimit(30)]
pub fn mk_pat(id: PatId) -> (r: Vec<u8>)
    ensures
        r@ == pat(id),
{
    let mut v: Vec<u8> = Vec::new();
    match id {
        PatId::ExtPrefix => {
            v.push(91);
            v.push(101);
            v.push(120);
            v.push(116);
            v.push(95);
            v.push(114);
            v.push(101);
            v.push(115);
            v.push(111);
            v.push(117);
            v.push(114);
            v.push(99);
            v.push(101);
            v.push(32);
            proof {
                assert(v@ =~= pat(id));
            }
        },
        PatId::SubPrefix => {
            v.push(91);
            v.push(115);
            v.push(117);
            v.push(98);
            v.push(95);
            v.push(114);
            v.push(101);
            v.push(115);
            v.push(111);
            v.push(117);
            v.push(114);
            v.push(99);
            v.push(101);
            v.push(32);
            v.push(116);
            v.push(121);
            v.push(112);
            v.push(101);
            v.push(61);
            v.push(34);
            proof {
                assert(v@ =~= pat(id));
            }
        },
        PatId::IdMid => {
            v.push(34);
            v.push(32);
            v.push(105);
            v.push(100);
            v.push(61);
            v.push(34);
            proof {
                assert(v@ =~= pat(id));
            }
        },
        PatId::NodePrefix => {
            v.push(91);
            v.push(110);
            v.push(111);
            v.push(100);
            v.push(101);
            v.push(32);
            v.push(110);
            v.push(97);
            v.push(109);
            v.push(101);
            v.push(61);
            v.push(34);
            proof {
                assert(v@ =~= pat(id));
            }
        },
        PatId::TypeAttr => {
            v.push(116);
            v.push(121);
            v.push(112);
            v.push(101);
            v.push(61);
            v.push(34);
            proof {
                assert(v@ =~= pat(id));
            }
        },
        PatId::ParentAttr => {
            v.push(112);
            v.push(97);
            v.push(114);
            v.push(101);
            v.push(110);
            v.push(116);
            v.push(61);
            v.push(34);
            proof {
                assert(v@ =~= pat(id));
            }
        },
        PatId::IndexAttr => {
            v.push(105);
            v.push(110);
            v.push(100);
            v.push(101);
            v.push(120);
            v.push(61);
            v.push(34);
            proof {
                assert(v@ =~= pat(id));
            }
        },
        PatId::InstAttr => {
            v.push(105);
            v.push(110);
            v.push(115);
            v.push(116);
            v.push(97);
            v.push(110);
            v.push(99);
            v.push(101);
            v.push(61);
            v.push(69);
            v.push(120);
            v.push(116);
            v.push(82);
            v.push(101);
            v.push(115);
            v.push(111);
            v.push(117);
            v.push(114);
            v.push(99);
            v.push(101);
            v.push(40);
            proof {
                assert(v@ =~= pat(id));
            }
        },
        PatId::ConnPrefix => {
            v.push(91);
            v.push(99);
            v.push(111);
            v.push(110);
            v.push(110);
            v.push(101);
            v.push(99);
            v.push(116);
            v.push(105);
            v.push(111);
            v.push(110);
            v.push(32);
            v.push(115);
            v.push(105);
            v.push(103);
            v.push(110);
            v.push(97);
            v.push(108);
            v.push(61);
            v.push(34);
            proof {
                assert(v@ =~= pat(id));
            }
        },
        PatId::FromMid => {
            v.push(34);
            v.push(32);
            v.push(102);
            v.push(114);
            v.push(111);
            v.push(109);
            v.push(61);
            v.push(34);
            proof {
                assert(v@ =~= pat(id));
            }
        },
        PatId::ToMid => {
            v.push(34);
            v.push(32);
            v.push(116);
            v.push(111);
            v.push(61);
            v.push(34);
            proof {
                assert(v@ =~= pat(id));
            }
        },
        PatId::MethodMid => {
            v.push(34);
            v.push(32);
            v.push(109);
            v.push(101);
            v.push(116);
            v.push(104);
            v.push(111);
            v.push(100);
            v.push(61);
            v.push(34);
            proof {
                assert(v@ =~= pat(id));
            }
        },
        PatId::ConnEnd => {
            v.push(34);
            v.push(93);
            proof {
                assert(v@ =~= pat(id));
            }
        },
        PatId::ExtWord => {
            v.push(69);
            v.push(120);
            v.push(116);
            v.push(82);
            v.push(101);
            v.push(115);
            v.push(111);
            v.push(117);
            v.push(114);
            v.push(99);
            v.push(101);
            proof {
                assert(v@ =~= pat(id));
            }
        },
        PatId::SubWord => {
            v.push(83);
            v.push(117);
            v.push(98);
            v.push(82);
            v.push(101);
            v.push(115);
            v.push(111);
            v.push(117);
            v.push(114);
            v.push(99);
            v.push(101);
            proof {
                assert(v@ =~= pat(id));
            }
        },
        PatId::ExtParen => {
            v.push(69);
            v.push(120);
            v.push(116);
            v.push(82);
            v.push(101);
            v.push(115);
            v.push(111);
            v.push(117);
            v.push(114);
            v.push(99);
            v.push(101);
            v.push(40);
            proof {
                assert(v@ =~= pat(id));
            }
        },
        PatId::SubParen => {
            v.push(83);
            v.push(117);
            v.push(98);
            v.push(82);
            v.push(101);
            v.push(115);
            v.push(111);
            v.push(117);
            v.push(114);
            v.push(99);
            v.push(101);
            v.push(40);
            proof {
                assert(v@ =~= pat(id));
            }
        },
        PatId::QuoteSpace => {
            v.push(34);
            v.push(32);
            proof {
                assert(v@ =~= pat(id));
            }
        },
        PatId::EqQuote => {
            v.push(61);
            v.push(34);
            proof {
                assert(v@ =~= pat(id));
            }
        },
        PatId::AssignMid => {
            v.push(32);
            v.push(61);
            v.push(32);
            proof {
                assert(v@ =~= pat(id));
            }
        },
        PatId::KeyPath => {
            v.push(112);
            v.push(97);
            v.push(116);
            v.push(104);
            proof {
                assert(v@ =~= pat(id));
            }
        },
        PatId::KeyType => {
            v.push(116);
            v.push(121);
            v.push(112);
            v.push(101);
            proof {
                assert(v@ =~= pat(id));
            }
        },
        PatId::KeyUid => {
            v.push(117);
            v.push(105);
            v.push(100);
            proof {
                assert(v@ =~= pat(id));
            }
        },
        PatId::KeyId => {
            v.push(105);
            v.push(100);
            proof {
                assert(v@ =~= pat(id));
            }
        },
        PatId::Tee => {
            v.push(226);
            v.push(148);
            v.push(156);
            v.push(226);
            v.push(148);
            v.push(128);
            v.push(226);
            v.push(148);
            v.push(128);
            v.push(32);
            proof {
                assert(v@ =~= pat(id));
            }
        },
        PatId::Ell => {
            v.push(226);
            v.push(148);
            v.push(148);
            v.push(226);
            v.push(148);
            v.push(128);
            v.push(226);
            v.push(148);
            v.push(128);
            v.push(32);
            proof {
                assert(v@ =~= pat(id));
            }
        },
        PatId::Guide => {
            v.push(226);
            v.push(148);
            v.push(130);
            v.push(32);
            v.push(32);
            v.push(32);
            proof {
                assert(v@ =~= pat(id));
            }
        },
        PatId::Blank4 => {
            v.push(32);
            v.push(32);
            v.push(32);
            v.push(32);
            proof {
                assert(v@ =~= pat(id));
            }
        },
        PatId::Blank6 => {
            v.push(32);
            v.push(32);
            v.push(32);
            v.push(32);
            v.push(32);
            v.push(32);
            proof {
                assert(v@ =~= pat(id));
            }
        },
        PatId::Star => {
            v.push(42);
            v.push(32);
            proof {
                assert(v@ =~= pat(id));
            }
        },
        PatId::ColonSp => {
            v.push(58);
            v.push(32);
            proof {
                assert(v@ =~= pat(id));
            }
        },
        PatId::ConnLabel => {
            v.push(42);
            v.push(32);
            v.push(99);
            v.push(111);
            v.push(110);
            v.push(110);
            v.push(101);
            v.push(99);
            v.push(116);
            v.push(105);
            v.push(111);
            v.push(110);
            v.push(58);
            v.push(32);
            proof {
                assert(v@ =~= pat(id));
            }
        },
        PatId::Colon => {
            v.push(58);
            proof {
                assert(v@ =~= pat(id));
            }
        },
        PatId::ArrowMid => {
            v.push(40);
            v.push(41);
            v.push(32);
            v.push(61);
            v.push(62);
            v.push(32);
            proof {
                assert(v@ =~= pat(id));
            }
        },
        PatId::ParenPair => {
            v.push(40);
            v.push(41);
            proof {
                assert(v@ =~= pat(id));
            }
        },
        PatId::SpLParen => {
            v.push(32);
            v.push(40);
            proof {
                assert(v@ =~= pat(id));
            }
        },
        PatId::LParen => {
            v.push(40);
            proof {
                assert(v@ =~= pat(id));
            }
        },
        PatId::RParenSp => {
            v.push(41);
            v.push(32);
            proof {
                assert(v@ =~= pat(id));
            }
        },
        PatId::RParen => {
            v.push(41);
            proof {
                assert(v@ =~= pat(id));
            }
        },
        PatId::Newline => {
            v.push(10);
            proof {
                assert(v@ =~= pat(id));
            }
        },
    }
    v
}

} // verus!
