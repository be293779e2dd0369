use kernel::isr::desc::{
    Desc, DescTable, DescType, Granularity, Segment, DESC_SIZE, DPL, GDT, IDT, ISR_COUNT,
    KERNEL_DATA_SELECTOR, NO_IO_BITMAP, TSS, TSS_SIZE,
};

#[test]
fn enums_have_the_values_of_the_processor() {
    assert_eq!(DPL::KERNEL.int_value(), 0x0);
    assert_eq!(DPL::USER.int_value(), 0x3);
    assert_eq!(Segment::KCODE.int_value(), 1);
    assert_eq!(Segment::KDATA.int_value(), 2);
    assert_eq!(Segment::UCODE.int_value(), 3);
    assert_eq!(Segment::UDATA.int_value(), 4);
    assert_eq!(Segment::TSS.int_value(), 5);
    assert_eq!(DescType::NULL.int_value(), 0x00);
    assert_eq!(DescType::SYS_TASK_GATE.int_value(), 0x05);
    assert_eq!(DescType::SYS_TSS.int_value(), 0x09);
    assert_eq!(DescType::SYS_INTR_GATE.int_value(), 0x0E);
    assert_eq!(DescType::DATA_RO.int_value(), 0x10);
    assert_eq!(DescType::DATA_RW.int_value(), 0x12);
    assert_eq!(DescType::CODE_X.int_value(), 0x18);
    assert_eq!(DescType::CODE_XR.int_value(), 0x1A);
    assert_eq!(Granularity::BYTES.int_value(), 0x00);
    assert_eq!(Granularity::PAGES.int_value(), 0x80);
}

#[test]
fn sizes_are_those_of_the_tables_in_memory() {
    assert_eq!(ISR_COUNT, 256);
    assert_eq!(DESC_SIZE, 8);
    assert_eq!(TSS_SIZE, 60);
    assert_eq!(KERNEL_DATA_SELECTOR, 0x10);
    assert_eq!(NO_IO_BITMAP, 120);
}

#[test]
fn default_descriptor_is_zero() {
    assert_eq!(Desc::default().raw(), 0);
}

#[test]
fn flat_descriptors_have_the_known_encodings() {
    let kcode = Desc::new_flat(Granularity::PAGES, DescType::CODE_XR, DPL::KERNEL);
    let kdata = Desc::new_flat(Granularity::PAGES, DescType::DATA_RW, DPL::KERNEL);
    let ucode = Desc::new_flat(Granularity::PAGES, DescType::CODE_XR, DPL::USER);
    let udata = Desc::new_flat(Granularity::PAGES, DescType::DATA_RW, DPL::USER);
    assert_eq!(kcode.raw(), 0x00CF_9A00_0000_FFFF);
    assert_eq!(kdata.raw(), 0x00CF_9200_0000_FFFF);
    assert_eq!(ucode.raw(), 0x00CF_FA00_0000_FFFF);
    assert_eq!(udata.raw(), 0x00CF_F200_0000_FFFF);
    let bytes = Desc::new_flat(Granularity::BYTES, DescType::DATA_RO, DPL::KERNEL);
    assert_eq!(bytes.raw(), 0x004F_9000_0000_FFFF);
}

#[test]
fn tss_descriptor_scatters_address_and_limit() {
    let d = Desc::new_tss(0x1234_5678, 59, Granularity::BYTES, DPL::KERNEL);
    assert_eq!(d.raw(), 0x1240_8934_5678_003B);
    // of the limit the low 20 bits count
    let d = Desc::new_tss(0xFFFF_FFFF, 0xABC_DEF1, Granularity::PAGES, DPL::USER);
    assert_eq!(d.raw(), 0xFFCC_E9FF_FFFF_DEF1);
    let d = Desc::new_tss(0, 0, Granularity::BYTES, DPL::KERNEL);
    assert_eq!(d.raw(), 0x0040_8900_0000_0000);
}

#[test]
fn idt_descriptor_points_to_the_handler_in_kernel_code() {
    let d = Desc::new_idt(3, 0x0012_3456, DPL::KERNEL);
    assert_eq!(d.raw(), 0x0012_8E00_0008_3456);
    let d = Desc::new_idt(48, 0xC010_0A0C, DPL::USER);
    assert_eq!(d.raw(), 0xC010_EE00_0008_0A0C);
    let d = Desc::new_idt(255, 0, DPL::KERNEL);
    assert_eq!(d.raw(), 0x0000_8E00_0008_0000);
}

#[test]
fn reserved_vectors_are_never_present() {
    for no in 0..ISR_COUNT {
        let present = Desc::new_idt(no, 0x0012_3456, DPL::KERNEL).raw() >> 47 & 1;
        assert_eq!(present == 1, no != 2 && no != 15);
    }
    assert_eq!(Desc::new_idt(2, 0x0012_3456, DPL::KERNEL).raw(), 0x0012_0E00_0008_3456);
    assert_eq!(Desc::new_idt(15, 0x0012_3456, DPL::USER).raw(), 0x0012_6E00_0008_3456);
}

#[test]
fn desc_table_holds_size_less_one() {
    assert_eq!(DescTable::new(48, 0x10_2000), DescTable { size: 47, offset: 0x10_2000 });
    assert_eq!(DescTable::new(1, 0), DescTable { size: 0, offset: 0 });
    assert_eq!(
        DescTable::new(ISR_COUNT * DESC_SIZE, 0xFFFF_FFFF_0000),
        DescTable { size: 0x7FF, offset: 0xFFFF_FFFF_0000 }
    );
    assert_eq!(DescTable::new(0x1_0000, 8), DescTable { size: 0xFFFF, offset: 8 });
}

#[test]
fn tss_starts_without_io_bitmap() {
    let tss = TSS::new(0x10_3000, 0x10);
    assert_eq!(tss.entry_sp(), 0x10_3000);
    assert_eq!(tss.entry_ss(), 0x10);
    assert_eq!(tss.io_bitmap_offset(), 120);
    let tss = TSS::new(0, 0);
    assert_eq!(tss.entry_sp(), 0);
    assert_eq!(tss.entry_ss(), 0);
}

#[test]
fn tss_set_entry_sp_selects_the_kernel_data_segment() {
    let mut tss = TSS::new(0, 0);
    tss.set_entry_sp(0x20_5000);
    assert_eq!(tss.entry_sp(), 0x20_5000);
    assert_eq!(tss.entry_ss(), 0x10);
    assert_eq!(tss.io_bitmap_offset(), 120);
    tss.set_entry_sp(0xFFFF_F000);
    assert_eq!(tss.entry_sp(), 0xFFFF_F000);
}

#[test]
fn gdt_default_is_all_zero() {
    let gdt = GDT::default();
    assert_eq!(gdt.inner.null.raw(), 0);
    assert_eq!(gdt.inner.kcode.raw(), 0);
    assert_eq!(gdt.inner.kdata.raw(), 0);
    assert_eq!(gdt.inner.ucode.raw(), 0);
    assert_eq!(gdt.inner.udata.raw(), 0);
    assert_eq!(gdt.inner.tss.raw(), 0);
}

#[test]
fn idt_set_changes_one_entry() {
    let mut idt = IDT::default();
    for no in 0..ISR_COUNT {
        assert_eq!(idt.get(no).raw(), 0);
    }
    idt.set(14, 0x0040_1234, DPL::KERNEL);
    idt.set(2, 0x0040_5678, DPL::KERNEL);
    for no in 0..ISR_COUNT {
        let want = match no {
            14 => 0x0040_8E00_0008_1234,
            2 => 0x0040_0E00_0008_5678,
            _ => 0,
        };
        assert_eq!(idt.get(no).raw(), want);
    }
    idt.set(14, 0x0050_0000, DPL::USER);
    assert_eq!(idt.get(14).raw(), 0x0050_EE00_0008_0000);
}
