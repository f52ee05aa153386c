//! Fixed constants of the message layout and the per-version address table.

use vstd::prelude::*;
use vstd::string::{StrSliceExecFns, StringExecFns};

verus! {

/// Total size of the output file: a 200 KiB message body plus the 0x400-byte
/// attribute header in front of it.
pub const BUFFER_SIZE: usize = 205824;

/// Seconds between the Unix epoch and 2000-01-01 00:00:00 UTC, the custom
/// epoch the message timestamps count from.
pub const SECONDS_TO_2000: u64 = 946684800;

/// Timebase ticks per second used by the "sent time" field of the body header.
pub const TICKS_PER_SECOND: u64 = 60750000;

/// Byte length of the length-prefixed description string of the attribute
/// header (its terminator included); the stub loader is emitted this many
/// bytes past the start of the message text region at 0x568.
pub const STRLEN: usize = 0x12;

/// Extension of the generated file name.
pub const FILE_EXTENSION: &'static str = "000";

/// Fixed folder identifier segment of the delivery path.
pub const FOLDER_ID: &'static str = "PUNE_69";

/// Fixed folder type segment of the delivery path.
pub const FOLDER_TYPE: &'static str = "log";

/// Per-firmware-version addresses: where the overflow redirects control and
/// which system-menu routines the emitted stub may call.
#[derive(Clone, Copy, Debug, PartialEq, Eq, Structural)]
pub struct SysMenuVars {
    /// Allocator-entry overwrite target; adjusted by +0x14 - 0x08 before use.
    pub overwrite_addr: u32,
    /// In-memory address of the self-referential jump-table word.
    pub jump_table_addr: u32,
    /// In-memory address of the stub; doubles as the XOR mask of the
    /// embedded loader and of the emitted pointer words.
    pub jump_addr: u32,
    /// Version tag of the file structure read by the target.
    pub file_struct_version: u32,
    pub os_return_to_menu: u32,
    pub os_stop_audio_system: u32,
    pub gx_abort: u32,
    pub vfsys_open_file_current: u32,
    pub vfsys_read_file: u32,
    pub os_unregister_state_event: u32,
    pub vi_set_black: u32,
    pub vi_flush: u32,
    pub vfpvol_get_volume: u32,
    pub vfpvol_set_current_volume: u32,
}

pub open spec fn spec_vars_43u() -> SysMenuVars {
    SysMenuVars {
        overwrite_addr: 0x80396E28,
        jump_table_addr: 0x9345D360,
        jump_addr: 0x9345057A,
        file_struct_version: 0x18,
        os_return_to_menu: 0x81330210,
        os_stop_audio_system: 0x8133D5A0,
        gx_abort: 0x8131A2F0,
        vfsys_open_file_current: 0x81346B80,
        vfsys_read_file: 0x81346E40,
        os_unregister_state_event: 0x81330AD0,
        vi_set_black: 0x8131EF60,
        vi_flush: 0x8131F0A0,
        vfpvol_get_volume: 0x81345C20,
        vfpvol_set_current_volume: 0x81345D10,
    }
}

pub open spec fn spec_vars_43e() -> SysMenuVars {
    SysMenuVars {
        overwrite_addr: 0x80396E48,
        jump_table_addr: 0x9346D360,
        jump_addr: 0x9346057A,
        file_struct_version: 0x18,
        os_return_to_menu: 0x81330250,
        os_stop_audio_system: 0x8133D5E0,
        gx_abort: 0x8131A330,
        vfsys_open_file_current: 0x81346BC0,
        vfsys_read_file: 0x81346E80,
        os_unregister_state_event: 0x81330B10,
        vi_set_black: 0x8131EFA0,
        vi_flush: 0x8131F0E0,
        vfpvol_get_volume: 0x81345C60,
        vfpvol_set_current_volume: 0x81345D50,
    }
}

pub open spec fn spec_vars_43j() -> SysMenuVars {
    SysMenuVars {
        overwrite_addr: 0x80396E08,
        jump_table_addr: 0x9347D360,
        jump_addr: 0x9347057A,
        file_struct_version: 0x18,
        os_return_to_menu: 0x813301F0,
        os_stop_audio_system: 0x8133D580,
        gx_abort: 0x8131A2D0,
        vfsys_open_file_current: 0x81346B60,
        vfsys_read_file: 0x81346E20,
        os_unregister_state_event: 0x81330AB0,
        vi_set_black: 0x8131EF40,
        vi_flush: 0x8131F080,
        vfpvol_get_volume: 0x81345C00,
        vfpvol_set_current_volume: 0x81345CF0,
    }
}

pub open spec fn spec_vars_43k() -> SysMenuVars {
    SysMenuVars {
        overwrite_addr: 0x80396EC8,
        jump_table_addr: 0x9348D360,
        jump_addr: 0x9348057A,
        file_struct_version: 0x18,
        os_return_to_menu: 0x81330330,
        os_stop_audio_system: 0x8133D6C0,
        gx_abort: 0x8131A410,
        vfsys_open_file_current: 0x81346CA0,
        vfsys_read_file: 0x81346F60,
        os_unregister_state_event: 0x81330BF0,
        vi_set_black: 0x8131F080,
        vi_flush: 0x8131F1C0,
        vfpvol_get_volume: 0x81345D40,
        vfpvol_set_current_volume: 0x81345E30,
    }
}

/// The version-string-to-addresses table, as a spec-level function.
pub open spec fn spec_sysmenu_vars(s: Seq<char>) -> Option<SysMenuVars> {
    if s == "4.3u"@ {
        Some(spec_vars_43u())
    } else if s == "4.3e"@ {
        Some(spec_vars_43e())
    } else if s == "4.3j"@ {
        Some(spec_vars_43j())
    } else if s == "4.3k"@ {
        Some(spec_vars_43k())
    } else {
        None
    }
}

/// Looks a version string up in the address table: exactly the four
/// supported version strings have an entry.
pub fn sysmenu_vars(version: &str) -> (r: Option<SysMenuVars>)
    ensures
        r == spec_sysmenu_vars(version@),
{
    proof {
        reveal_strlit("4.3u");
        reveal_strlit("4.3e");
        reveal_strlit("4.3j");
        reveal_strlit("4.3k");
    }
    let n = version.unicode_len();
    if n != 4 {
        return None;
    }
    let c0 = version.get_char(0);
    let c1 = version.get_char(1);
    let c2 = version.get_char(2);
    let c3 = version.get_char(3);
    if !(c0 == '4' && c1 == '.' && c2 == '3') {
        return None;
    }
    if c3 == 'u' {
        assert(version@ =~= "4.3u"@);
        let v = SysMenuVars {
            overwrite_addr: 0x80396E28,
            jump_table_addr: 0x9345D360,
            jump_addr: 0x9345057A,
            file_struct_version: 0x18,
            os_return_to_menu: 0x81330210,
            os_stop_audio_system: 0x8133D5A0,
            gx_abort: 0x8131A2F0,
            vfsys_open_file_current: 0x81346B80,
            vfsys_read_file: 0x81346E40,
            os_unregister_state_event: 0x81330AD0,
            vi_set_black: 0x8131EF60,
            vi_flush: 0x8131F0A0,
            vfpvol_get_volume: 0x81345C20,
            vfpvol_set_current_volume: 0x81345D10,
        };
        assert(v == spec_vars_43u());
        Some(v)
    } else if c3 == 'e' {
        assert(version@ =~= "4.3e"@);
        let v = SysMenuVars {
            overwrite_addr: 0x80396E48,
            jump_table_addr: 0x9346D360,
            jump_addr: 0x9346057A,
            file_struct_version: 0x18,
            os_return_to_menu: 0x81330250,
            os_stop_audio_system: 0x8133D5E0,
            gx_abort: 0x8131A330,
            vfsys_open_file_current: 0x81346BC0,
            vfsys_read_file: 0x81346E80,
            os_unregister_state_event: 0x81330B10,
            vi_set_black: 0x8131EFA0,
            vi_flush: 0x8131F0E0,
            vfpvol_get_volume: 0x81345C60,
            vfpvol_set_current_volume: 0x81345D50,
        };
        assert(v == spec_vars_43e());
        Some(v)
    } else if c3 == 'j' {
        assert(version@ =~= "4.3j"@);
        let v = SysMenuVars {
            overwrite_addr: 0x80396E08,
            jump_table_addr: 0x9347D360,
            jump_addr: 0x9347057A,
            file_struct_version: 0x18,
            os_return_to_menu: 0x813301F0,
            os_stop_audio_system: 0x8133D580,
            gx_abort: 0x8131A2D0,
            vfsys_open_file_current: 0x81346B60,
            vfsys_read_file: 0x81346E20,
            os_unregister_state_event: 0x81330AB0,
            vi_set_black: 0x8131EF40,
            vi_flush: 0x8131F080,
            vfpvol_get_volume: 0x81345C00,
            vfpvol_set_current_volume: 0x81345CF0,
        };
        assert(v == spec_vars_43j());
        Some(v)
    } else if c3 == 'k' {
        assert(version@ =~= "4.3k"@);
        let v = SysMenuVars {
            overwrite_addr: 0x80396EC8,
            jump_table_addr: 0x9348D360,
            jump_addr: 0x9348057A,
            file_struct_version: 0x18,
            os_return_to_menu: 0x81330330,
            os_stop_audio_system: 0x8133D6C0,
            gx_abort: 0x8131A410,
            vfsys_open_file_current: 0x81346CA0,
            vfsys_read_file: 0x81346F60,
            os_unregister_state_event: 0x81330BF0,
            vi_set_black: 0x8131F080,
            vi_flush: 0x8131F1C0,
            vfpvol_get_volume: 0x81345D40,
            vfpvol_set_current_volume: 0x81345E30,
        };
        assert(v == spec_vars_43k());
        Some(v)
    } else {
        None
    }
}

/// The supported version strings, in table order.
pub fn get_supported_versions() -> (r: Vec<String>)
    ensures
        r@.len() == 4,
        r@[0]@ == "4.3u"@,
        r@[1]@ == "4.3e"@,
        r@[2]@ == "4.3j"@,
        r@[3]@ == "4.3k"@,
        forall|i: int| 0 <= i < 4 ==> spec_sysmenu_vars(#[trigger] r@[i]@) is Some,
{
    proof {
        reveal_strlit("4.3u");
        reveal_strlit("4.3e");
        reveal_strlit("4.3j");
        reveal_strlit("4.3k");
    }
    let mut r: Vec<String> = Vec::new();
    r.push(String::from_str("4.3u"));
    r.push(String::from_str("4.3e"));
    r.push(String::from_str("4.3j"));
    r.push(String::from_str("4.3k"));
    r
}

} // verus!

