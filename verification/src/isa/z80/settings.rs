//! The settings of the Z80 backend.

use vstd::prelude::*;
use crate::settings::schema::DescriptorView;
use crate::settings::schema::KindView;
use crate::settings::schema::Schema;
use crate::settings::schema::SchemaBuilder;
use crate::settings::schema::SchemaView;
use crate::settings::schema::SettingValue;

verus! {

/// The model of a boolean setting.
pub open spec fn bool_setting(
    name: Seq<char>,
    summary: Seq<char>,
    description: Seq<char>,
    default: bool,
) -> DescriptorView {
    DescriptorView { name, summary, description, kind: KindView::Bool, default: SettingValue::Bool(default) }
}

/// The schema of the Z80 backend: nine boolean settings, one for each group
/// of instructions or registers that a member of the family may lack.
pub open spec fn z80_schema() -> SchemaView {
    SchemaView {
        target: "z80"@,
        settings: seq![
            bool_setting(
                "has_index_registers"@,
                "Has IX / IY index registers and indirect addressing using displacement (DD, FD prefixed instructions)"@,
                "16-bit index registers used for indirect addressing with displacement."@,
                true,
            ),
            bool_setting(
                "has_shadow_registers"@,
                "Has AF' / BC' / DE' / HL' shadow registers and EX / EXX instructions"@,
                "Shadow registers that can be used to save and restore the state of the main registers."@,
                true,
            ),
            bool_setting(
                "has_sign_parity_overflow_flags"@,
                "Has PO / PE / P / M flags in conditional instructions"@,
                "Flags that indicate the sign, parity, and overflow status of the last operation."@,
                true,
            ),
            bool_setting(
                "has_ed_prefixed_instructions"@,
                "Has ED prefixed instructions (e.g., IN, OUT, LD A I, LD A R, ADC HL, SDC HL, RLD, RRD etc.)"@,
                "ED prefix operations that provide additional 16-bit memory accesses and arithmetic instructions and input/output instructions."@,
                true,
            ),
            bool_setting(
                "has_djnz"@,
                "Has DJNZ instruction"@,
                "DJNZ (Decrement and Jump if Not Zero) instruction that decrements the B register and jumps to a specified address if the result is not zero."@,
                true,
            ),
            bool_setting(
                "has_z80_undocumented_instructions"@,
                "Has Z80 undocumented instructions (e.g., SLL)"@,
                "Undocumented instructions that are specific to the Z80 processor, such as SLL (Shift Left Logical).These instructions may not be present in emulators or other Z80-compatible processors."@,
                true,
            ),
            bool_setting(
                "has_z180_extended_instructions"@,
                "Z180 extended instructions (e.g., MLT, OTIM, OTDM, etc.)"@,
                "Instructions specific to the Z180 processor that extend the capabilities of the Z80."@,
                false,
            ),
            bool_setting(
                "has_sm83_extended_instructions"@,
                "Has SM83 extended instructions (e.g., SWAP, HL+, etc.)"@,
                "Extended instructions specific to the Sharp SM83 (Game Boy) processor\n* SWAP r (swap nibbles in a register)\n* HL-, HL+ (autoincrement HL register)\n* ADD SP dd (add signed displacement to SP register)"@,
                false,
            ),
            bool_setting(
                "has_z80n_extended_instructions"@,
                "Has Z80N (Next-specific Z80) extended instructions (e.g., SWAP, MIRR, OTIB, etc.)"@,
                "Extended instructions specific to the Z80N (ZX Spectrum Next) processor"@,
                false,
            ),
        ],
    }
}

/// Builds the schema of the Z80 backend.
///
/// Every declaration is proved to be accepted: the nine names are not empty
/// and differ from one another.
pub fn define() -> (schema: Schema)
    ensures
        schema@ == z80_schema(),
{
    proof {
        reveal_strlit("has_index_registers");
        reveal_strlit("has_shadow_registers");
        reveal_strlit("has_sign_parity_overflow_flags");
        reveal_strlit("has_ed_prefixed_instructions");
        reveal_strlit("has_djnz");
        reveal_strlit("has_z80_undocumented_instructions");
        reveal_strlit("has_z180_extended_instructions");
        reveal_strlit("has_sm83_extended_instructions");
        reveal_strlit("has_z80n_extended_instructions");
        // Four names have the same length; their sixth and eighth characters
        // tell them apart.
        assert("has_sign_parity_overflow_flags"@[5] == 'i');
        assert("has_z180_extended_instructions"@[5] == '1');
        assert("has_sm83_extended_instructions"@[5] == 'm');
        assert("has_z80n_extended_instructions"@[5] == '8');
    }
    let settings = SchemaBuilder::new("z80");

    let settings = settings.declare_bool(
        "has_index_registers",
        "Has IX / IY index registers and indirect addressing using displacement (DD, FD prefixed instructions)",
        "16-bit index registers used for indirect addressing with displacement.",
        true,
    ).unwrap();

    let settings = settings.declare_bool(
        "has_shadow_registers",
        "Has AF' / BC' / DE' / HL' shadow registers and EX / EXX instructions",
        "Shadow registers that can be used to save and restore the state of the main registers.",
        true,
    ).unwrap();

    let settings = settings.declare_bool(
        "has_sign_parity_overflow_flags",
        "Has PO / PE / P / M flags in conditional instructions",
        "Flags that indicate the sign, parity, and overflow status of the last operation.",
        true,
    ).unwrap();

    let settings = settings.declare_bool(
        "has_ed_prefixed_instructions",
        "Has ED prefixed instructions (e.g., IN, OUT, LD A I, LD A R, ADC HL, SDC HL, RLD, RRD etc.)",
        "ED prefix operations that provide additional 16-bit memory accesses and arithmetic instructions and input/output instructions.",
        true,
    ).unwrap();

    let settings = settings.declare_bool(
        "has_djnz",
        "Has DJNZ instruction",
        "DJNZ (Decrement and Jump if Not Zero) instruction that decrements the B register and jumps to a specified address if the result is not zero.",
        true,
    ).unwrap();

    let settings = settings.declare_bool(
        "has_z80_undocumented_instructions",
        "Has Z80 undocumented instructions (e.g., SLL)",
        "Undocumented instructions that are specific to the Z80 processor, such as SLL (Shift Left Logical).These instructions may not be present in emulators or other Z80-compatible processors.",
        true,
    ).unwrap();

    let settings = settings.declare_bool(
        "has_z180_extended_instructions",
        "Z180 extended instructions (e.g., MLT, OTIM, OTDM, etc.)",
        "Instructions specific to the Z180 processor that extend the capabilities of the Z80.",
        false,
    ).unwrap();

    let settings = settings.declare_bool(
        "has_sm83_extended_instructions",
        "Has SM83 extended instructions (e.g., SWAP, HL+, etc.)",
        "Extended instructions specific to the Sharp SM83 (Game Boy) processor\n* SWAP r (swap nibbles in a register)\n* HL-, HL+ (autoincrement HL register)\n* ADD SP dd (add signed displacement to SP register)",
        false,
    ).unwrap();

    let settings = settings.declare_bool(
        "has_z80n_extended_instructions",
        "Has Z80N (Next-specific Z80) extended instructions (e.g., SWAP, MIRR, OTIB, etc.)",
        "Extended instructions specific to the Z80N (ZX Spectrum Next) processor",
        false,
    ).unwrap();

    let schema = settings.build();
    assert(schema@.settings =~= z80_schema().settings);
    schema
}

} // verus!
