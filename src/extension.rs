//! Guessing a file extension from the first eight bytes of a decoded payload.
use vstd::prelude::*;

verus! {

/// The extension named by the first little-endian word of the magic, if any.
pub open spec fn extension_of_lower(m: u32) -> Option<Seq<char>> {
    if m == 0x1D8 {
        Some("motlist"@)
    } else if m == 0x424454 {
        Some("tdb"@)
    } else if m == 0x424956 {
        Some("vib"@)
    } else if m == 0x444957 {
        Some("wid"@)
    } else if m == 0x444F4C {
        Some("lod"@)
    } else if m == 0x444252 {
        Some("rbd"@)
    } else if m == 0x4C4452 {
        Some("rdl"@)
    } else if m == 0x424650 {
        Some("pfb"@)
    } else if m == 0x464453 {
        Some("mmtr"@)
    } else if m == 0x46444D {
        Some("mdf2"@)
    } else if m == 0x4C4F46 {
        Some("fol"@)
    } else if m == 0x4E4353 {
        Some("scn"@)
    } else if m == 0x4F4C43 {
        Some("clo"@)
    } else if m == 0x504D4C {
        Some("lmp"@)
    } else if m == 0x535353 {
        Some("sss"@)
    } else if m == 0x534549 {
        Some("ies"@)
    } else if m == 0x530040 {
        Some("wel"@)
    } else if m == 0x584554 {
        Some("tex"@)
    } else if m == 0x525355 {
        Some("user"@)
    } else if m == 0x5A5352 {
        Some("wcc"@)
    } else if m == 0x4C4750 {
        Some("pgl"@)
    } else if m == 0x474F50 {
        Some("pog"@)
    } else if m == 0x4C4D47 {
        Some("gml"@)
    } else if m == 0x4034B50 {
        Some("zip"@)
    } else if m == 0x444E5247 {
        Some("grnd"@)
    } else if m == 0x20204648 {
        Some("hf"@)
    } else if m == 0x0A4C5447 {
        Some("gtl"@)
    } else if m == 0x4B424343 {
        Some("ccbk"@)
    } else if m == 0x20464843 {
        Some("chf"@)
    } else if m == 0x4854444D {
        Some("mdth"@)
    } else if m == 0x5443504D {
        Some("mpct"@)
    } else if m == 0x594C504D {
        Some("mply"@)
    } else if m == 0x50415257 {
        Some("wrap"@)
    } else if m == 0x50534C43 {
        Some("clsp"@)
    } else if m == 0x4F49434F {
        Some("ocio"@)
    } else if m == 0x4F434F43 {
        Some("coco"@)
    } else if m == 0x5F525350 {
        Some("psr_bvhl"@)
    } else if m == 0x4403FBF5 {
        Some("ncf"@)
    } else if m == 0x5DD45FC6 {
        Some("ncf"@)
    } else if m == 0x444D5921 {
        Some("ymd"@)
    } else if m == 0x52544350 {
        Some("pctr"@)
    } else if m == 0x44474C4D {
        Some("mlgd"@)
    } else if m == 0x20434452 {
        Some("rdc"@)
    } else if m == 0x50464E4E {
        Some("nnfp"@)
    } else if m == 0x4D534C43 {
        Some("clsm"@)
    } else if m == 0x54414D2E {
        Some("mat"@)
    } else if m == 0x54464453 {
        Some("sdft"@)
    } else if m == 0x44424453 {
        Some("sdbd"@)
    } else if m == 0x52554653 {
        Some("sfur"@)
    } else if m == 0x464E4946 {
        Some("finf"@)
    } else if m == 0x4D455241 {
        Some("arem"@)
    } else if m == 0x21545353 {
        Some("sst"@)
    } else if m == 0x204D4252 {
        Some("rbm"@)
    } else if m == 0x4D534648 {
        Some("hfsm"@)
    } else if m == 0x59444F42 {
        Some("rdd"@)
    } else if m == 0x20464544 {
        Some("def"@)
    } else if m == 0x4252504E {
        Some("nprb"@)
    } else if m == 0x44484B42 {
        Some("bnk"@)
    } else if m == 0x75B22630 {
        Some("mov"@)
    } else if m == 0x4853454D {
        Some("mesh"@)
    } else if m == 0x4B504B41 {
        Some("pck"@)
    } else if m == 0x50534552 {
        Some("spmdl"@)
    } else if m == 0x54564842 {
        Some("fsmv2"@)
    } else if m == 0x4C4F4352 {
        Some("rcol"@)
    } else if m == 0x5556532E {
        Some("uvs"@)
    } else if m == 0x4C494643 {
        Some("cfil"@)
    } else if m == 0x54504E47 {
        Some("gnpt"@)
    } else if m == 0x54414D43 {
        Some("cmat"@)
    } else if m == 0x44545254 {
        Some("trtd"@)
    } else if m == 0x50494C43 {
        Some("clip"@)
    } else if m == 0x564D4552 {
        Some("mov"@)
    } else if m == 0x414D4941 {
        Some("aimapattr"@)
    } else if m == 0x504D4941 {
        Some("aimp"@)
    } else if m == 0x72786665 {
        Some("efx"@)
    } else if m == 0x736C6375 {
        Some("ucls"@)
    } else if m == 0x54435846 {
        Some("fxct"@)
    } else if m == 0x58455452 {
        Some("rtex"@)
    } else if m == 0x37863546 {
        Some("oft"@)
    } else if m == 0x4F464246 {
        Some("oft"@)
    } else if m == 0x4C4F434D {
        Some("mcol"@)
    } else if m == 0x46454443 {
        Some("cdef"@)
    } else if m == 0x504F5350 {
        Some("psop"@)
    } else if m == 0x454D414D {
        Some("mame"@)
    } else if m == 0x43414D4D {
        Some("mameac"@)
    } else if m == 0x544C5346 {
        Some("fslt"@)
    } else if m == 0x64637273 {
        Some("srcd"@)
    } else if m == 0x68637273 {
        Some("asrc"@)
    } else if m == 0x4F525541 {
        Some("auto"@)
    } else if m == 0x7261666C {
        Some("lfar"@)
    } else if m == 0x52524554 {
        Some("terr"@)
    } else if m == 0x736E636A {
        Some("jcns"@)
    } else if m == 0x6C626C74 {
        Some("tmlbld"@)
    } else if m == 0x54455343 {
        Some("cset"@)
    } else if m == 0x726D6565 {
        Some("eemr"@)
    } else if m == 0x434C4244 {
        Some("dblc"@)
    } else if m == 0x384D5453 {
        Some("stmesh"@)
    } else if m == 0x32736674 {
        Some("tmlfsm2"@)
    } else if m == 0x45555141 {
        Some("aque"@)
    } else if m == 0x46554247 {
        Some("gbuf"@)
    } else if m == 0x4F4C4347 {
        Some("gclo"@)
    } else if m == 0x44525453 {
        Some("srtd"@)
    } else if m == 0x544C4946 {
        Some("filt"@)
    } else {
        None
    }
}

/// The extension named by the second little-endian word of the magic, if any.
pub open spec fn extension_of_upper(m: u32) -> Option<Seq<char>> {
    if m == 0x766544 {
        Some("dev"@)
    } else if m == 0x6B696266 {
        Some("fbik"@)
    } else if m == 0x74646566 {
        Some("fedt"@)
    } else if m == 0x73627472 {
        Some("rtbs"@)
    } else if m == 0x67727472 {
        Some("rtrg"@)
    } else if m == 0x67636B69 {
        Some("ikcg"@)
    } else if m == 0x45445046 {
        Some("fpde"@)
    } else if m == 0x64776863 {
        Some("chwd"@)
    } else if m == 0x6E616863 {
        Some("chain"@)
    } else if m == 0x6E6C6B73 {
        Some("fbxskel"@)
    } else if m == 0x47534D47 {
        Some("msg"@)
    } else if m == 0x52495547 {
        Some("gui"@)
    } else if m == 0x47464347 {
        Some("gcfg"@)
    } else if m == 0x72617675 {
        Some("uvar"@)
    } else if m == 0x544E4649 {
        Some("ifnt"@)
    } else if m == 0x20746F6D {
        Some("mot"@)
    } else if m == 0x70797466 {
        Some("mov"@)
    } else if m == 0x6D61636D {
        Some("mcam"@)
    } else if m == 0x6572746D {
        Some("mtre"@)
    } else if m == 0x6D73666D {
        Some("mfsm"@)
    } else if m == 0x74736C6D {
        Some("motlist"@)
    } else if m == 0x6B6E626D {
        Some("motbank"@)
    } else if m == 0x3273666D {
        Some("motfsm2"@)
    } else if m == 0x74736C63 {
        Some("mcamlist"@)
    } else if m == 0x70616D6A {
        Some("jmap"@)
    } else if m == 0x736E636A {
        Some("jcns"@)
    } else if m == 0x4E414554 {
        Some("tean"@)
    } else if m == 0x61646B69 {
        Some("ikda"@)
    } else if m == 0x736C6B69 {
        Some("ikls"@)
    } else if m == 0x72746B69 {
        Some("iktr"@)
    } else if m == 0x326C6B69 {
        Some("ikl2"@)
    } else if m == 0x72686366 {
        Some("fchr"@)
    } else if m == 0x544C5346 {
        Some("fslt"@)
    } else if m == 0x6B6E6263 {
        Some("cbnk"@)
    } else if m == 0x30474154 {
        Some("havokcl"@)
    } else if m == 0x52504347 {
        Some("gcpr"@)
    } else if m == 0x74646366 {
        Some("fcmndatals"@)
    } else if m == 0x67646C6A {
        Some("jointlodgroup"@)
    } else if m == 0x444E5347 {
        Some("gsnd"@)
    } else if m == 0x59545347 {
        Some("gsty"@)
    } else if m == 0x3267656C {
        Some("leg2"@)
    } else {
        None
    }
}

/// The extension a full 8-byte magic names: the first word is looked up first.
pub open spec fn extension_of(lower: u32, upper: u32) -> Option<Seq<char>> {
    match extension_of_lower(lower) {
        Some(e) => Some(e),
        None => extension_of_upper(upper),
    }
}

/// Looks up the first word of a magic.
#[verifier::rlimit(60)]
fn lookup_lower(m: u32) -> (r: Option<&'static str>)
    ensures
        r is Some == extension_of_lower(m) is Some,
        r is Some ==> r->0@ == extension_of_lower(m)->0,
{
    if m == 0x1D8 {
        Some("motlist")
    } else if m == 0x424454 {
        Some("tdb")
    } else if m == 0x424956 {
        Some("vib")
    } else if m == 0x444957 {
        Some("wid")
    } else if m == 0x444F4C {
        Some("lod")
    } else if m == 0x444252 {
        Some("rbd")
    } else if m == 0x4C4452 {
        Some("rdl")
    } else if m == 0x424650 {
        Some("pfb")
    } else if m == 0x464453 {
        Some("mmtr")
    } else if m == 0x46444D {
        Some("mdf2")
    } else if m == 0x4C4F46 {
        Some("fol")
    } else if m == 0x4E4353 {
        Some("scn")
    } else if m == 0x4F4C43 {
        Some("clo")
    } else if m == 0x504D4C {
        Some("lmp")
    } else if m == 0x535353 {
        Some("sss")
    } else if m == 0x534549 {
        Some("ies")
    } else if m == 0x530040 {
        Some("wel")
    } else if m == 0x584554 {
        Some("tex")
    } else if m == 0x525355 {
        Some("user")
    } else if m == 0x5A5352 {
        Some("wcc")
    } else if m == 0x4C4750 {
        Some("pgl")
    } else if m == 0x474F50 {
        Some("pog")
    } else if m == 0x4C4D47 {
        Some("gml")
    } else if m == 0x4034B50 {
        Some("zip")
    } else if m == 0x444E5247 {
        Some("grnd")
    } else if m == 0x20204648 {
        Some("hf")
    } else if m == 0x0A4C5447 {
        Some("gtl")
    } else if m == 0x4B424343 {
        Some("ccbk")
    } else if m == 0x20464843 {
        Some("chf")
    } else if m == 0x4854444D {
        Some("mdth")
    } else if m == 0x5443504D {
        Some("mpct")
    } else if m == 0x594C504D {
        Some("mply")
    } else if m == 0x50415257 {
        Some("wrap")
    } else if m == 0x50534C43 {
        Some("clsp")
    } else if m == 0x4F49434F {
        Some("ocio")
    } else if m == 0x4F434F43 {
        Some("coco")
    } else if m == 0x5F525350 {
        Some("psr_bvhl")
    } else if m == 0x4403FBF5 {
        Some("ncf")
    } else if m == 0x5DD45FC6 {
        Some("ncf")
    } else if m == 0x444D5921 {
        Some("ymd")
    } else if m == 0x52544350 {
        Some("pctr")
    } else if m == 0x44474C4D {
        Some("mlgd")
    } else if m == 0x20434452 {
        Some("rdc")
    } else if m == 0x50464E4E {
        Some("nnfp")
    } else if m == 0x4D534C43 {
        Some("clsm")
    } else if m == 0x54414D2E {
        Some("mat")
    } else if m == 0x54464453 {
        Some("sdft")
    } else if m == 0x44424453 {
        Some("sdbd")
    } else if m == 0x52554653 {
        Some("sfur")
    } else if m == 0x464E4946 {
        Some("finf")
    } else if m == 0x4D455241 {
        Some("arem")
    } else if m == 0x21545353 {
        Some("sst")
    } else if m == 0x204D4252 {
        Some("rbm")
    } else if m == 0x4D534648 {
        Some("hfsm")
    } else if m == 0x59444F42 {
        Some("rdd")
    } else if m == 0x20464544 {
        Some("def")
    } else if m == 0x4252504E {
        Some("nprb")
    } else if m == 0x44484B42 {
        Some("bnk")
    } else if m == 0x75B22630 {
        Some("mov")
    } else if m == 0x4853454D {
        Some("mesh")
    } else if m == 0x4B504B41 {
        Some("pck")
    } else if m == 0x50534552 {
        Some("spmdl")
    } else if m == 0x54564842 {
        Some("fsmv2")
    } else if m == 0x4C4F4352 {
        Some("rcol")
    } else if m == 0x5556532E {
        Some("uvs")
    } else if m == 0x4C494643 {
        Some("cfil")
    } else if m == 0x54504E47 {
        Some("gnpt")
    } else if m == 0x54414D43 {
        Some("cmat")
    } else if m == 0x44545254 {
        Some("trtd")
    } else if m == 0x50494C43 {
        Some("clip")
    } else if m == 0x564D4552 {
        Some("mov")
    } else if m == 0x414D4941 {
        Some("aimapattr")
    } else if m == 0x504D4941 {
        Some("aimp")
    } else if m == 0x72786665 {
        Some("efx")
    } else if m == 0x736C6375 {
        Some("ucls")
    } else if m == 0x54435846 {
        Some("fxct")
    } else if m == 0x58455452 {
        Some("rtex")
    } else if m == 0x37863546 {
        Some("oft")
    } else if m == 0x4F464246 {
        Some("oft")
    } else if m == 0x4C4F434D {
        Some("mcol")
    } else if m == 0x46454443 {
        Some("cdef")
    } else if m == 0x504F5350 {
        Some("psop")
    } else if m == 0x454D414D {
        Some("mame")
    } else if m == 0x43414D4D {
        Some("mameac")
    } else if m == 0x544C5346 {
        Some("fslt")
    } else if m == 0x64637273 {
        Some("srcd")
    } else if m == 0x68637273 {
        Some("asrc")
    } else if m == 0x4F525541 {
        Some("auto")
    } else if m == 0x7261666C {
        Some("lfar")
    } else if m == 0x52524554 {
        Some("terr")
    } else if m == 0x736E636A {
        Some("jcns")
    } else if m == 0x6C626C74 {
        Some("tmlbld")
    } else if m == 0x54455343 {
        Some("cset")
    } else if m == 0x726D6565 {
        Some("eemr")
    } else if m == 0x434C4244 {
        Some("dblc")
    } else if m == 0x384D5453 {
        Some("stmesh")
    } else if m == 0x32736674 {
        Some("tmlfsm2")
    } else if m == 0x45555141 {
        Some("aque")
    } else if m == 0x46554247 {
        Some("gbuf")
    } else if m == 0x4F4C4347 {
        Some("gclo")
    } else if m == 0x44525453 {
        Some("srtd")
    } else if m == 0x544C4946 {
        Some("filt")
    } else {
        None
    }
}

/// Looks up the second word of a magic.
#[verifier::rlimit(60)]
fn lookup_upper(m: u32) -> (r: Option<&'static str>)
    ensures
        r is Some == extension_of_upper(m) is Some,
        r is Some ==> r->0@ == extension_of_upper(m)->0,
{
    if m == 0x766544 {
        Some("dev")
    } else if m == 0x6B696266 {
        Some("fbik")
    } else if m == 0x74646566 {
        Some("fedt")
    } else if m == 0x73627472 {
        Some("rtbs")
    } else if m == 0x67727472 {
        Some("rtrg")
    } else if m == 0x67636B69 {
        Some("ikcg")
    } else if m == 0x45445046 {
        Some("fpde")
    } else if m == 0x64776863 {
        Some("chwd")
    } else if m == 0x6E616863 {
        Some("chain")
    } else if m == 0x6E6C6B73 {
        Some("fbxskel")
    } else if m == 0x47534D47 {
        Some("msg")
    } else if m == 0x52495547 {
        Some("gui")
    } else if m == 0x47464347 {
        Some("gcfg")
    } else if m == 0x72617675 {
        Some("uvar")
    } else if m == 0x544E4649 {
        Some("ifnt")
    } else if m == 0x20746F6D {
        Some("mot")
    } else if m == 0x70797466 {
        Some("mov")
    } else if m == 0x6D61636D {
        Some("mcam")
    } else if m == 0x6572746D {
        Some("mtre")
    } else if m == 0x6D73666D {
        Some("mfsm")
    } else if m == 0x74736C6D {
        Some("motlist")
    } else if m == 0x6B6E626D {
        Some("motbank")
    } else if m == 0x3273666D {
        Some("motfsm2")
    } else if m == 0x74736C63 {
        Some("mcamlist")
    } else if m == 0x70616D6A {
        Some("jmap")
    } else if m == 0x736E636A {
        Some("jcns")
    } else if m == 0x4E414554 {
        Some("tean")
    } else if m == 0x61646B69 {
        Some("ikda")
    } else if m == 0x736C6B69 {
        Some("ikls")
    } else if m == 0x72746B69 {
        Some("iktr")
    } else if m == 0x326C6B69 {
        Some("ikl2")
    } else if m == 0x72686366 {
        Some("fchr")
    } else if m == 0x544C5346 {
        Some("fslt")
    } else if m == 0x6B6E6263 {
        Some("cbnk")
    } else if m == 0x30474154 {
        Some("havokcl")
    } else if m == 0x52504347 {
        Some("gcpr")
    } else if m == 0x74646366 {
        Some("fcmndatals")
    } else if m == 0x67646C6A {
        Some("jointlodgroup")
    } else if m == 0x444E5347 {
        Some("gsnd")
    } else if m == 0x59545347 {
        Some("gsty")
    } else if m == 0x3267656C {
        Some("leg2")
    } else {
        None
    }
}

/// The extension a magic names, looking up its first word and then its second.
pub fn extension_for_magic(lower: u32, upper: u32) -> (r: Option<&'static str>)
    ensures
        r is Some == extension_of(lower, upper) is Some,
        r is Some ==> r->0@ == extension_of(lower, upper)->0,
{
    match lookup_lower(lower) {
        Some(e) => Some(e),
        None => lookup_upper(upper),
    }
}

} // verus!
