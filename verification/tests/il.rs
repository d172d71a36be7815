use r2sleigh::il::columns::{OpColumns, OpTag, SpaceTag};
use r2sleigh::il::metadata::{Endianness, PointerHint, ScalarKind, VarnodeMetadata};
use r2sleigh::il::op::R2ILOp;
use r2sleigh::il::space::{AddressSpace, SpaceId};
use r2sleigh::il::varnode::Varnode;
use std::collections::HashSet;
use std::hash::{Hash, Hasher};

fn vn(space: SpaceId, offset: u64) -> Varnode {
    Varnode::new(space, offset, 8)
}

fn stream() -> Vec<R2ILOp> {
    vec![
        R2ILOp::Copy {
            dst: vn(SpaceId::Unique, 1),
            src: vn(SpaceId::Ram, 0x1000),
        },
        R2ILOp::CallInd {
            target: vn(SpaceId::Unique, 1),
        },
        R2ILOp::Call {
            target: vn(SpaceId::Ram, 0x4000),
        },
        R2ILOp::CallOther {
            output: None,
            userop: 17,
            inputs: vec![],
        },
        R2ILOp::Return {
            target: vn(SpaceId::Register, 0),
        },
    ]
}

#[test]
fn columns_are_positional_against_the_source_stream() {
    let ops = stream();
    let c = OpColumns::build(&ops);
    assert_eq!(c.len(), ops.len(), "one column entry per op");
    for (i, op) in ops.iter().enumerate() {
        assert_eq!(c.tag[i], OpTag::of(op).code(), "tag mismatch at {i}");
    }
}

#[test]
fn find_tag_locates_control_flow_and_not_data() {
    let c = OpColumns::build(&stream());
    assert_eq!(c.find_tag(OpTag::CallOther), vec![3]);
    assert_eq!(c.find_tag(OpTag::Call), vec![2]);
    assert_eq!(c.find_tag(OpTag::CallInd), vec![1]);
    assert_eq!(c.find_tag(OpTag::Data), vec![0]);
    assert!(c.find_tag(OpTag::Branch).is_empty());
}

#[test]
fn histogram_totals_the_stream_exactly() {
    let ops = stream();
    let h = OpColumns::build(&ops).tag_histogram();
    assert_eq!(h.iter().sum::<u64>(), ops.len() as u64);
    assert_eq!(h[OpTag::CallOther.code() as usize], 1);
    assert_eq!(h[OpTag::Data.code() as usize], 1);
}

/// The range filter discriminates.
#[test]
fn ram_range_filter_is_two_sided() {
    let c = OpColumns::build(&stream());
    assert_eq!(c.find_ram_in_range(0x0F00, 0x2000), vec![0]);
    assert_eq!(c.find_ram_in_range(0x0F00, 0x5000), vec![0, 2]);
    assert!(c.find_ram_in_range(0x9000, 0x9100).is_empty());
}

/// A custom space collapses to one tag and never becomes a scan key.
#[test]
fn custom_spaces_collapse_regardless_of_their_run_local_integer() {
    let a = OpColumns::build(&[R2ILOp::Branch {
        target: vn(SpaceId::Custom(1_062_180_976), 8),
    }]);
    let b = OpColumns::build(&[R2ILOp::Branch {
        target: vn(SpaceId::Custom(2_279_590_000), 8),
    }]);
    assert_eq!(a.space, b.space, "two runs must agree on the space tag");
    assert_eq!(a.space[0], SpaceTag::Custom.code());
}

#[test]
fn extend_appends_rather_than_replacing() {
    let ops = stream();
    let mut c = OpColumns::build(&ops);
    let before = c.len();
    c.extend(&ops);
    assert_eq!(c.len(), before * 2);
    assert_eq!(c.offset.len(), c.tag.len());
    assert_eq!(c.space.len(), c.tag.len());
}

/// The guard refuses the varnode that cannot be reproduced, and no other.
#[test]
fn is_persistable_refuses_only_the_unreproducible_varnode() {
    assert!(!Varnode::new(SpaceId::Unresolved, 0x1000, 8).is_persistable());

    for sid in [
        SpaceId::Ram,
        SpaceId::Register,
        SpaceId::Unique,
        SpaceId::Const,
        SpaceId::Custom(0x1234),
    ] {
        assert!(
            Varnode::new(sid, 0x1000, 8).is_persistable(),
            "{} is reproducible and must be persistable",
            sid.to_text()
        );
    }
}

#[test]
fn is_unresolved_discriminates() {
    assert!(SpaceId::Unresolved.is_unresolved());
    for sid in [
        SpaceId::Ram,
        SpaceId::Register,
        SpaceId::Unique,
        SpaceId::Const,
        SpaceId::Custom(0),
    ] {
        assert!(
            !sid.is_unresolved(),
            "{} must not read as unresolved",
            sid.to_text()
        );
    }
}

/// A window onto memory keeps its own identity and says where its bytes live.
#[test]
fn an_aliased_space_keeps_its_identity() {
    let mut window = AddressSpace::new(SpaceId::Custom(0x1234), "iomem", 8);
    window.aliases = Some(SpaceId::Ram);
    assert_ne!(window.id, SpaceId::Ram);
    assert_eq!(window.aliases, Some(SpaceId::Ram));
    let plain = AddressSpace::ram(8);
    assert_eq!(plain.aliases, None);
}

#[test]
fn test_constant_varnode() {
    let v = Varnode::constant(42, 4);
    assert!(v.is_const());
    assert_eq!(v.const_value(), Some(42));
    assert_eq!(v.size, 4);
}

#[test]
fn test_register_varnode() {
    let v = Varnode::register(0x10, 8);
    assert!(v.is_register());
    assert!(!v.is_const());
    assert_eq!(v.offset, 0x10);
    assert_eq!(v.size, 8);
    assert!(v.meta.is_none());
}

#[test]
fn varnode_default_meta_none() {
    let v = Varnode::default();
    assert!(v.meta.is_none());
}

#[test]
fn defaults_are_the_constant_zero_in_memory_terms() {
    assert_eq!(Varnode::default().to_text(), "0x0:1");
    assert_eq!(SpaceId::default(), SpaceId::Ram);
    assert!(OpColumns::default().is_empty());
}

#[test]
fn varnode_eq_hash_ignores_meta() {
    let meta = VarnodeMetadata {
        scalar_kind: Some(ScalarKind::SignedInt),
        ..Default::default()
    };

    let a = Varnode::register(0x30, 8);
    let b = Varnode::register(0x30, 8).with_meta(meta);
    assert_eq!(a, b);

    let mut set = HashSet::new();
    set.insert(a);
    set.insert(b);
    assert_eq!(set.len(), 1);
}

#[test]
fn different_varnodes_hash_apart_in_a_set() {
    let mut set = HashSet::new();
    set.insert(Varnode::register(0x30, 8));
    set.insert(Varnode::register(0x31, 8));
    set.insert(Varnode::register(0x30, 4));
    set.insert(Varnode::ram(0x30, 8));
    assert_eq!(set.len(), 4);
}

#[test]
fn hints_come_and_go() {
    let mut v = Varnode::register(0x20, 8);
    assert!(v.meta().is_none());
    v.set_meta(VarnodeMetadata {
        pointer_hint: Some(PointerHint::PointerLike),
        bank_id: Some("b0".to_string()),
        ..Default::default()
    });
    assert_eq!(v.meta().and_then(|m| m.bank_id.as_deref()), Some("b0"));
    assert_eq!(
        v.meta().and_then(|m| m.pointer_hint),
        Some(PointerHint::PointerLike)
    );
    v.clear_meta();
    assert!(v.meta().is_none());
}

#[test]
fn varnodes_and_spaces_have_a_text_form() {
    assert_eq!(Varnode::constant(0x2a, 4).to_text(), "0x2a:4");
    assert_eq!(Varnode::ram(0x1000, 8).to_text(), "ram:0x1000[8]");
    assert_eq!(
        Varnode::new(SpaceId::Custom(7), 0xff, 1).to_text(),
        "space7:0xff[1]"
    );
    assert_eq!(SpaceId::Register.to_text(), "reg");
    assert_eq!(SpaceId::Unique.to_text(), "uniq");
    assert_eq!(SpaceId::Const.to_text(), "const");
    assert_eq!(SpaceId::Unresolved.to_text(), "unresolved");
    assert_eq!(SpaceId::Custom(3).to_variant_text(), "Custom(3)");
}

#[test]
fn spaces_tell_themselves_apart() {
    assert!(SpaceId::Ram.is_ram() && !SpaceId::Const.is_ram());
    assert!(SpaceId::Const.is_const() && !SpaceId::Ram.is_const());
    assert!(SpaceId::Register.is_register() && !SpaceId::Unique.is_register());
    assert!(SpaceId::Unique.is_unique() && !SpaceId::Custom(0).is_unique());
    assert_ne!(SpaceId::Custom(1).hash_words(), SpaceId::Custom(2).hash_words());
}

#[test]
fn address_spaces_start_plain() {
    let ram = AddressSpace::ram(8);
    assert_eq!(
        (ram.id, ram.name.as_str(), ram.addr_size, ram.is_default),
        (SpaceId::Ram, "ram", 8, true)
    );
    let mut be = AddressSpace::new(SpaceId::Ram, "ram_be", 8);
    assert!(!be.is_default);
    assert_eq!(be.endianness, None);
    be.endianness = Some(Endianness::Big);
    assert_eq!(be.endianness, Some(Endianness::Big));
    assert_eq!(AddressSpace::register().name, "register");
    assert_eq!(AddressSpace::unique().name, "unique");
    assert_eq!(AddressSpace::constant().id, SpaceId::Const);
}

#[test]
fn building_in_parts_gives_the_whole() {
    let ops = stream();
    let whole = OpColumns::build(&ops);
    let mut parts = OpColumns::build(&ops[..2]);
    parts.extend(&ops[2..]);
    assert_eq!(parts.tag, whole.tag);
    assert_eq!(parts.space, whole.space);
    assert_eq!(parts.offset, whole.offset);
    assert!(OpColumns::build(&[]).is_empty());
}

#[test]
fn scan_and_histogram_agree() {
    let c = OpColumns::build(&stream());
    let h = c.tag_histogram();
    for tag in [
        OpTag::Data,
        OpTag::Branch,
        OpTag::CBranch,
        OpTag::BranchInd,
        OpTag::Call,
        OpTag::CallInd,
        OpTag::Return,
        OpTag::CallOther,
    ] {
        assert_eq!(c.find_tag(tag).len() as u64, h[tag.code() as usize]);
        assert_eq!(tag.is_control_flow(), tag != OpTag::Data);
    }
}

#[test]
fn operations_without_a_varnode_have_no_space() {
    let c = OpColumns::build(&[R2ILOp::Nop]);
    assert_eq!(c.space[0], SpaceTag::NoSpace.code());
    assert_eq!(SpaceTag::of(SpaceId::Ram), SpaceTag::Ram);
    assert_eq!(
        SpaceTag::of(SpaceId::Custom(1)),
        SpaceTag::of(SpaceId::Custom(2))
    );
}

/// Lifted code holds many varnodes, so their size is pinned.
#[test]
fn a_varnode_is_small() {
    assert_eq!(core::mem::size_of::<Varnode>(), 32);
}

/// Keeps the bytes that a value is hashed by.
struct Recorder {
    fed: Vec<u8>,
}

impl Hasher for Recorder {
    fn finish(&self) -> u64 {
        0
    }

    fn write(&mut self, bytes: &[u8]) {
        self.fed.extend_from_slice(bytes);
    }
}

fn fed_by<T: Hash>(value: &T) -> Vec<u8> {
    let mut recorder = Recorder { fed: vec![] };
    value.hash(&mut recorder);
    recorder.fed
}

#[derive(Hash)]
enum Place {
    #[allow(dead_code)]
    Ram,
    Register,
    #[allow(dead_code)]
    Unique,
    #[allow(dead_code)]
    Const,
    Custom(u32),
    Unresolved,
}

#[test]
fn a_varnode_is_hashed_by_its_words() {
    assert_eq!(
        fed_by(&Varnode::new(SpaceId::Custom(7), 0x10, 4)),
        fed_by(&(Place::Custom(7), 0x10u64, 4u32))
    );
    assert_eq!(
        fed_by(&Varnode::register(0x20, 8)),
        fed_by(&(Place::Register, 0x20u64, 8u32))
    );
    assert_eq!(fed_by(&SpaceId::Unresolved), fed_by(&Place::Unresolved));
    assert_eq!(
        Varnode::new(SpaceId::Custom(7), 0x10, 4).hash_words(),
        ((4, Some(7)), 0x10, 4)
    );
    assert_eq!(SpaceId::Unresolved.hash_words(), (5, None));
    assert_eq!(
        Varnode::ram(3, 1).hash_words(),
        Varnode::ram(3, 1).hash_words()
    );
    assert_ne!(
        Varnode::ram(3, 1).hash_words(),
        Varnode::unique(3, 1).hash_words()
    );
}
