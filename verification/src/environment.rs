//! The environment that LibreOffice runs in.

use vstd::prelude::*;

verus! {

/// Where the packed LibreOffice install is found.
pub fn archive_path() -> (res: &'static str)
    ensures
        res@ == "/opt/libreoffice-layer.tar.zst"@,
{
    "/opt/libreoffice-layer.tar.zst"
}

/// Where LibreOffice is unpacked to.
pub fn unpack_path() -> (res: &'static str)
    ensures
        res@ == "/tmp"@,
{
    "/tmp"
}

/// The environment variables to set, each with its value, in this order.
pub open spec fn variables_to_set() -> Seq<(Seq<char>, Seq<char>)> {
    seq![
        ("LIBREOFFICE_PATH"@, "/tmp/opt/libreoffice25.8"@),
        ("LO_PATH"@, "/tmp/opt/libreoffice25.8/program"@),
        ("LIBREOFFICE_SDK_PATH"@, "/tmp/opt/libreoffice25.8/program"@),
        ("LD_LIBRARY_PATH"@, "/tmp/opt/libreoffice25.8/program:/tmp/opt/lib64:/usr/lib64"@),
        ("SAL_USE_VCLPLUGIN"@, "gen"@),
        ("SAL_DISABLE_USERMIGRATION"@, "true"@),
        ("SAL_DISABLE_LOCKING"@, "1"@),
        ("XDG_DATA_DIRS"@, "/tmp/opt/share"@),
        ("HOME"@, "/tmp"@),
        ("UserInstallation"@, "file:///tmp/lo_profile"@),
        ("URE_BOOTSTRAP"@, "file:///tmp/opt/libreoffice25.8/program/fundamentalrc"@),
        ("FONTCONFIG_PATH"@, "/tmp/opt/etc/fonts"@),
        ("FONTCONFIG_FILE"@, "/tmp/opt/etc/fonts/fonts.conf"@),
    ]
}

/// The environment variables to set, each with its value, in this order.
pub fn variables() -> (res: Vec<(&'static str, &'static str)>)
    ensures
        res@.map_values(|pair: (&'static str, &'static str)| (pair.0@, pair.1@))
            == variables_to_set(),
{
    let res: Vec<(&'static str, &'static str)> = vec![
        ("LIBREOFFICE_PATH", "/tmp/opt/libreoffice25.8"),
        ("LO_PATH", "/tmp/opt/libreoffice25.8/program"),
        ("LIBREOFFICE_SDK_PATH", "/tmp/opt/libreoffice25.8/program"),
        ("LD_LIBRARY_PATH", "/tmp/opt/libreoffice25.8/program:/tmp/opt/lib64:/usr/lib64"),
        ("SAL_USE_VCLPLUGIN", "gen"),
        ("SAL_DISABLE_USERMIGRATION", "true"),
        ("SAL_DISABLE_LOCKING", "1"),
        ("XDG_DATA_DIRS", "/tmp/opt/share"),
        ("HOME", "/tmp"),
        ("UserInstallation", "file:///tmp/lo_profile"),
        ("URE_BOOTSTRAP", "file:///tmp/opt/libreoffice25.8/program/fundamentalrc"),
        ("FONTCONFIG_PATH", "/tmp/opt/etc/fonts"),
        ("FONTCONFIG_FILE", "/tmp/opt/etc/fonts/fonts.conf"),
    ];
    assert(res@.map_values(|pair: (&'static str, &'static str)| (pair.0@, pair.1@))
        =~= variables_to_set());
    res
}

/// The directories to create, in this order.
pub fn directories() -> (res: Vec<&'static str>)
    ensures
        res@.map_values(|dir: &'static str| dir@) == seq!["/tmp/lo_home"@, "/tmp/lo_profile"@],
{
    let res: Vec<&'static str> = vec!["/tmp/lo_home", "/tmp/lo_profile"];
    assert(res@.map_values(|dir: &'static str| dir@) =~= seq!["/tmp/lo_home"@, "/tmp/lo_profile"@]);
    res
}

/// LibreOffice is unpacked from its archive to the directory that its paths are
/// below, and the directories that it writes to are created.
pub proof fn law_environment_of_libreoffice(
    archive: &'static str,
    unpacked: &'static str,
    set: Vec<(&'static str, &'static str)>,
    made: Vec<&'static str>,
)
    requires
        call_ensures(archive_path, (), archive),
        call_ensures(unpack_path, (), unpacked),
        call_ensures(variables, (), set),
        call_ensures(directories, (), made),
    ensures
        archive@ == "/opt/libreoffice-layer.tar.zst"@,
        unpacked@ == "/tmp"@,
        set@.map_values(|pair: (&'static str, &'static str)| (pair.0@, pair.1@))
            == variables_to_set(),
        made@.map_values(|dir: &'static str| dir@) == seq!["/tmp/lo_home"@, "/tmp/lo_profile"@],
{
}

} // verus!
