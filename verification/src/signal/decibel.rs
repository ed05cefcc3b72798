//! Thresholds given in decibels.
//!
//! A level is counted in tenths of a decibel. A level of `level` tenths
//! stands for the amplitude `10^(level/200)`, and an amplitude of `size`
//! millionths is below it exactly when `size^200 < 10^(level + 1200)`,
//! which is a comparison of whole numbers; the threshold computed here is
//! the least `size` for which it fails.
//!
//! The threshold comes from a table of the two-hundredth roots of ten to
//! twenty digits. Each entry is shown to be the root by its tenth power,
//! which is held against a twentieth root of ten known to thirty-one
//! digits; that root is shown by its twentieth power.

use vstd::prelude::*;
use vstd::arithmetic::div_mod::{lemma_fundamental_div_mod, lemma_mod_bound};
use vstd::arithmetic::power::{
    lemma_pow0,
    lemma_pow1,
    lemma_pow_adds,
    lemma_pow_distributes,
    lemma_pow_increases,
    lemma_pow_multiplies,
    lemma_pow_positive,
    pow,
};

verus! {

/// Whether an amplitude of `size` millionths is below `10^(level/200)`,
/// the amplitude that a level of `level` tenths of a decibel stands for.
pub open spec fn below_decibels(size: int, level: int) -> bool {
    let e = level + 1200;
    if e >= 0 {
        pow(size, 200) < pow(10, e as nat)
    } else {
        pow(size, 200) * pow(10, (-e) as nat) < 1
    }
}

/// The tenth power of `x`, by repeated squaring.
pub open spec fn pow10(x: int) -> int {
    let x2 = x * x;
    let x4 = x2 * x2;
    let x5 = x4 * x;
    x5 * x5
}

/// The twentieth power of `x`, by repeated squaring.
pub open spec fn pow20(x: int) -> int {
    let x10 = pow10(x);
    x10 * x10
}

/// `10^a`, for an `a` of at most nine.
pub open spec fn ten(a: int) -> int {
    if a <= 0 {
        1
    } else if a == 1 {
        10
    } else if a == 2 {
        100
    } else if a == 3 {
        1000
    } else if a == 4 {
        10000
    } else if a == 5 {
        100000
    } else if a == 6 {
        1000000
    } else if a == 7 {
        10000000
    } else if a == 8 {
        100000000
    } else {
        1000000000
    }
}

/// The least whole number that is not below `10^(30 + b/20)`.
pub open spec fn bracket_high(b: int) -> int {
    if b <= 0 {
        1000000000000000000000000000000int
    } else if b == 1 {
        1122018454301963435591038946478int
    } else if b == 2 {
        1258925411794167210423954106396int
    } else if b == 3 {
        1412537544622754302155607863931int
    } else if b == 4 {
        1584893192461113485202101373392int
    } else if b == 5 {
        1778279410038922801225421195193int
    } else if b == 6 {
        1995262314968879601352455396740int
    } else if b == 7 {
        2238721138568339611954950852466int
    } else if b == 8 {
        2511886431509580111085032067800int
    } else if b == 9 {
        2818382931264453819101923699156int
    } else if b == 10 {
        3162277660168379331998893544433int
    } else if b == 11 {
        3548133892335754584332187022645int
    } else if b == 12 {
        3981071705534972507702523050878int
    } else if b == 13 {
        4466835921509631185562505243194int
    } else if b == 14 {
        5011872336272722850015541868850int
    } else if b == 15 {
        5623413251903490803949510397765int
    } else if b == 16 {
        6309573444801932494343601366224int
    } else if b == 17 {
        7079457843841379108022149421894int
    } else if b == 18 {
        7943282347242815020659182828364int
    } else {
        8912509381337455299531086810783int
    }
}

/// Whether `low` and `high` have the twentieth root of `tens`, scaled by
/// `10^30`, between them: above `low`, and not above `high`.
#[verifier::opaque]
pub open spec fn bracketed(low: int, high: int, tens: int) -> bool {
    pow20(low) < tens * pow20(1000000000000000000000000000000) <= pow20(high)
}

/// Whether `k` is shown to be the least whole number that is not below the
/// tenth root of a number between `10^160 * tens * low` and
/// `10^160 * tens * high`.
#[verifier::opaque]
pub open spec fn certified(k: int, tens: int, low: int, high: int) -> bool {
    &&& pow10(k - 1) <= pow10(10000000000000000) * tens * low
    &&& pow10(10000000000000000) * tens * high <= pow10(k)
}

/// Each bracket holds the twentieth root that it is named for.
#[verifier::nonlinear]
proof fn lemma_brackets()
    ensures
        bracketed(999999999999999999999999999999int, 1000000000000000000000000000000int, 1),
        bracketed(1122018454301963435591038946477int, 1122018454301963435591038946478int, 10),
        bracketed(1258925411794167210423954106395int, 1258925411794167210423954106396int, 100),
        bracketed(1412537544622754302155607863930int, 1412537544622754302155607863931int, 1000),
        bracketed(1584893192461113485202101373391int, 1584893192461113485202101373392int, 10000),
        bracketed(1778279410038922801225421195192int, 1778279410038922801225421195193int, 100000),
        bracketed(1995262314968879601352455396739int, 1995262314968879601352455396740int, 1000000),
        bracketed(2238721138568339611954950852465int, 2238721138568339611954950852466int, 10000000),
        bracketed(2511886431509580111085032067799int, 2511886431509580111085032067800int, 100000000),
        bracketed(2818382931264453819101923699155int, 2818382931264453819101923699156int, 1000000000),
        bracketed(3162277660168379331998893544432int, 3162277660168379331998893544433int, 10000000000),
        bracketed(3548133892335754584332187022644int, 3548133892335754584332187022645int, 100000000000),
        bracketed(3981071705534972507702523050877int, 3981071705534972507702523050878int, 1000000000000),
        bracketed(4466835921509631185562505243193int, 4466835921509631185562505243194int, 10000000000000),
        bracketed(5011872336272722850015541868849int, 5011872336272722850015541868850int, 100000000000000),
        bracketed(5623413251903490803949510397764int, 5623413251903490803949510397765int, 1000000000000000),
        bracketed(6309573444801932494343601366223int, 6309573444801932494343601366224int, 10000000000000000),
        bracketed(7079457843841379108022149421893int, 7079457843841379108022149421894int, 100000000000000000),
        bracketed(7943282347242815020659182828363int, 7943282347242815020659182828364int, 1000000000000000000),
        bracketed(8912509381337455299531086810782int, 8912509381337455299531086810783int, 10000000000000000000),
{
    reveal(bracketed);
}

/// The entries for 0 to 19 tenths of a decibel above a multiple of
/// 20 dB.
#[verifier::nonlinear]
proof fn lemma_roots_0()
    ensures
        certified(10000000000000000000, 1, 999999999999999999999999999999int, 1000000000000000000000000000000int),
        certified(10115794542598985245, 1, 1122018454301963435591038946477int, 1122018454301963435591038946478int),
        certified(10232929922807541310, 1, 1258925411794167210423954106395int, 1258925411794167210423954106396int),
        certified(10351421666793438173, 1, 1412537544622754302155607863930int, 1412537544622754302155607863931int),
        certified(10471285480508995335, 1, 1584893192461113485202101373391int, 1584893192461113485202101373392int),
        certified(10592537251772888789, 1, 1778279410038922801225421195192int, 1778279410038922801225421195193int),
        certified(10715193052376064175, 1, 1995262314968879601352455396739int, 1995262314968879601352455396740int),
        certified(10839269140212035264, 1, 2238721138568339611954950852465int, 2238721138568339611954950852466int),
        certified(10964781961431850132, 1, 2511886431509580111085032067799int, 2511886431509580111085032067800int),
        certified(11091748152624010667, 1, 2818382931264453819101923699155int, 2818382931264453819101923699156int),
        certified(11220184543019634356, 1, 3162277660168379331998893544432int, 3162277660168379331998893544433int),
        certified(11350108156723150640, 1, 3548133892335754584332187022644int, 3548133892335754584332187022645int),
        certified(11481536214968827516, 1, 3981071705534972507702523050877int, 3981071705534972507702523050878int),
        certified(11614486138403427486, 1, 4466835921509631185562505243193int, 4466835921509631185562505243194int),
        certified(11748975549395295418, 1, 5011872336272722850015541868849int, 5011872336272722850015541868850int),
        certified(11885022274370184378, 1, 5623413251903490803949510397764int, 5623413251903490803949510397765int),
        certified(12022644346174129059, 1, 6309573444801932494343601366223int, 6309573444801932494343601366224int),
        certified(12161860006463679988, 1, 7079457843841379108022149421893int, 7079457843841379108022149421894int),
        certified(12302687708123815343, 1, 7943282347242815020659182828363int, 7943282347242815020659182828364int),
        certified(12445146117713850871, 1, 8912509381337455299531086810782int, 8912509381337455299531086810783int),
{
    reveal(certified);
}

/// The entries for 20 to 39 tenths of a decibel above a multiple of
/// 20 dB.
#[verifier::nonlinear]
proof fn lemma_roots_1()
    ensures
        certified(12589254117941672105, 10, 999999999999999999999999999999int, 1000000000000000000000000000000int),
        certified(12735030810166616841, 10, 1122018454301963435591038946477int, 1122018454301963435591038946478int),
        certified(12882495516931339629, 10, 1258925411794167210423954106395int, 1258925411794167210423954106396int),
        certified(13031667784522993873, 10, 1412537544622754302155607863930int, 1412537544622754302155607863931int),
        certified(13182567385564071021, 10, 1584893192461113485202101373391int, 1584893192461113485202101373392int),
        certified(13335214321633240257, 10, 1778279410038922801225421195192int, 1778279410038922801225421195193int),
        certified(13489628825916536093, 10, 1995262314968879601352455396739int, 1995262314968879601352455396740int),
        certified(13645831365889245258, 10, 2238721138568339611954950852465int, 2238721138568339611954950852466int),
        certified(13803842646028848379, 10, 2511886431509580111085032067799int, 2511886431509580111085032067800int),
        certified(13963683610559376047, 10, 2818382931264453819101923699155int, 2818382931264453819101923699156int),
        certified(14125375446227543022, 10, 3162277660168379331998893544432int, 3162277660168379331998893544433int),
        certified(14288939585111028566, 10, 3548133892335754584332187022644int, 3548133892335754584332187022645int),
        certified(14454397707459275120, 10, 3981071705534972507702523050877int, 3981071705534972507702523050878int),
        certified(14621771744567181889, 10, 4466835921509631185562505243193int, 4466835921509631185562505243194int),
        certified(14791083881682074222, 10, 5011872336272722850015541868849int, 5011872336272722850015541868850int),
        certified(14962356560944334119, 10, 5623413251903490803949510397764int, 5623413251903490803949510397765int),
        certified(15135612484362081625, 10, 6309573444801932494343601366223int, 6309573444801932494343601366224int),
        certified(15310874616820301420, 10, 7079457843841379108022149421893int, 7079457843841379108022149421894int),
        certified(15488166189124813447, 10, 7943282347242815020659182828363int, 7943282347242815020659182828364int),
        certified(15667510701081491064, 10, 8912509381337455299531086810782int, 8912509381337455299531086810783int),
{
    reveal(certified);
}

/// The entries for 40 to 59 tenths of a decibel above a multiple of
/// 20 dB.
#[verifier::nonlinear]
proof fn lemma_roots_2()
    ensures
        certified(15848931924611134853, 100, 999999999999999999999999999999int, 1000000000000000000000000000000int),
        certified(16032453906900414978, 100, 1122018454301963435591038946477int, 1122018454301963435591038946478int),
        certified(16218100973589299729, 100, 1258925411794167210423954106395int, 1258925411794167210423954106396int),
        certified(16405897731995392752, 100, 1412537544622754302155607863930int, 1412537544622754302155607863931int),
        certified(16595869074375606344, 100, 1584893192461113485202101373391int, 1584893192461113485202101373392int),
        certified(16788040181225603140, 100, 1778279410038922801225421195192int, 1778279410038922801225421195193int),
        certified(16982436524617443547, 100, 1995262314968879601352455396739int, 1995262314968879601352455396740int),
        certified(17179083871575881296, 100, 2238721138568339611954950852465int, 2238721138568339611954950852466int),
        certified(17378008287493754670, 100, 2511886431509580111085032067799int, 2511886431509580111085032067800int),
        certified(17579236139586926090, 100, 2818382931264453819101923699155int, 2818382931264453819101923699156int),
        certified(17782794100389228013, 100, 3162277660168379331998893544432int, 3162277660168379331998893544433int),
        certified(17988709151287878408, 100, 3548133892335754584332187022644int, 3548133892335754584332187022645int),
        certified(18197008586099834402, 100, 3981071705534972507702523050877int, 3981071705534972507702523050878int),
        certified(18407720014689558154, 100, 4466835921509631185562505243193int, 4466835921509631185562505243194int),
        certified(18620871366628674487, 100, 5011872336272722850015541868849int, 5011872336272722850015541868850int),
        certified(18836490894898005351, 100, 5623413251903490803949510397764int, 5623413251903490803949510397765int),
        certified(19054607179632471827, 100, 6309573444801932494343601366223int, 6309573444801932494343601366224int),
        certified(19275249131909360062, 100, 7079457843841379108022149421893int, 7079457843841379108022149421894int),
        certified(19498445997580453236, 100, 7943282347242815020659182828363int, 7943282347242815020659182828364int),
        certified(19724227361148537549, 100, 8912509381337455299531086810782int, 8912509381337455299531086810783int),
{
    reveal(certified);
}

/// The entries for 60 to 79 tenths of a decibel above a multiple of
/// 20 dB.
#[verifier::nonlinear]
proof fn lemma_roots_3()
    ensures
        certified(19952623149688796014, 1000, 999999999999999999999999999999int, 1000000000000000000000000000000int),
        certified(20183663636815609857, 1000, 1122018454301963435591038946477int, 1122018454301963435591038946478int),
        certified(20417379446695293315, 1000, 1258925411794167210423954106395int, 1258925411794167210423954106396int),
        certified(20653801558105293707, 1000, 1412537544622754302155607863930int, 1412537544622754302155607863931int),
        certified(20892961308540394832, 1000, 1584893192461113485202101373391int, 1584893192461113485202101373392int),
        certified(21134890398366467956, 1000, 1778279410038922801225421195192int, 1778279410038922801225421195193int),
        certified(21379620895022320976, 1000, 1995262314968879601352455396739int, 1995262314968879601352455396740int),
        certified(21627185237270202694, 1000, 2238721138568339611954950852465int, 2238721138568339611954950852466int),
        certified(21877616239495525623, 1000, 2511886431509580111085032067799int, 2511886431509580111085032067800int),
        certified(22130947096056377224, 1000, 2818382931264453819101923699155int, 2818382931264453819101923699156int),
        certified(22387211385683396120, 1000, 3162277660168379331998893544432int, 3162277660168379331998893544433int),
        certified(22646443075930596469, 1000, 3548133892335754584332187022644int, 3548133892335754584332187022645int),
        certified(22908676527677730458, 1000, 3981071705534972507702523050877int, 3981071705534972507702523050878int),
        certified(23173946499684785691, 1000, 4466835921509631185562505243193int, 4466835921509631185562505243194int),
        certified(23442288153199221182, 1000, 5011872336272722850015541868849int, 5011872336272722850015541868850int),
        certified(23713737056616552617, 1000, 5623413251903490803949510397764int, 5623413251903490803949510397765int),
        certified(23988329190194904654, 1000, 6309573444801932494343601366223int, 6309573444801932494343601366224int),
        certified(24266100950824155163, 1000, 7079457843841379108022149421893int, 7079457843841379108022149421894int),
        certified(24547089156850303561, 1000, 7943282347242815020659182828363int, 7943282347242815020659182828364int),
        certified(24831331052955702687, 1000, 8912509381337455299531086810782int, 8912509381337455299531086810783int),
{
    reveal(certified);
}

/// The entries for 80 to 99 tenths of a decibel above a multiple of
/// 20 dB.
#[verifier::nonlinear]
proof fn lemma_roots_4()
    ensures
        certified(25118864315095801111, 10000, 999999999999999999999999999999int, 1000000000000000000000000000000int),
        certified(25409727055493050217, 10000, 1122018454301963435591038946477int, 1122018454301963435591038946478int),
        certified(25703957827688638008, 10000, 1258925411794167210423954106395int, 1258925411794167210423954106396int),
        certified(26001595631652719229, 10000, 1412537544622754302155607863930int, 1412537544622754302155607863931int),
        certified(26302679918953819173, 10000, 1584893192461113485202101373391int, 1584893192461113485202101373392int),
        certified(26607250597988096350, 10000, 1778279410038922801225421195192int, 1778279410038922801225421195193int),
        certified(26915348039269157174, 10000, 1995262314968879601352455396739int, 1995262314968879601352455396740int),
        certified(27227013080779123814, 10000, 2238721138568339611954950852465int, 2238721138568339611954950852466int),
        certified(27542287033381664487, 10000, 2511886431509580111085032067799int, 2511886431509580111085032067800int),
        certified(27861211686297703695, 10000, 2818382931264453819101923699155int, 2818382931264453819101923699156int),
        certified(28183829312644538192, 10000, 3162277660168379331998893544432int, 3162277660168379331998893544433int),
        certified(28510182675039092891, 10000, 3548133892335754584332187022644int, 3548133892335754584332187022645int),
        certified(28840315031266059424, 10000, 3981071705534972507702523050877int, 3981071705534972507702523050878int),
        certified(29174270140011668642, 10000, 4466835921509631185562505243193int, 4466835921509631185562505243194int),
        certified(29512092266663857080, 10000, 5011872336272722850015541868849int, 5011872336272722850015541868850int),
        certified(29853826189179596180, 10000, 5623413251903490803949510397764int, 5623413251903490803949510397765int),
        certified(30199517204020161987, 10000, 6309573444801932494343601366223int, 6309573444801932494343601366224int),
        certified(30549211132155132028, 10000, 7079457843841379108022149421893int, 7079457843841379108022149421894int),
        certified(30902954325135905196, 10000, 7943282347242815020659182828363int, 7943282347242815020659182828364int),
        certified(31260793671239549684, 10000, 8912509381337455299531086810782int, 8912509381337455299531086810783int),
{
    reveal(certified);
}

/// The entries for 100 to 119 tenths of a decibel above a multiple of
/// 20 dB.
#[verifier::nonlinear]
proof fn lemma_roots_5()
    ensures
        certified(31622776601683793320, 100000, 999999999999999999999999999999int, 1000000000000000000000000000000int),
        certified(31988951096913980105, 100000, 1122018454301963435591038946477int, 1122018454301963435591038946478int),
        certified(32359365692962826268, 100000, 1258925411794167210423954106395int, 1258925411794167210423954106396int),
        certified(32734069487883818834, 100000, 1412537544622754302155607863930int, 1412537544622754302155607863931int),
        certified(33113112148259109431, 100000, 1584893192461113485202101373391int, 1584893192461113485202101373392int),
        certified(33496543915782765955, 100000, 1778279410038922801225421195192int, 1778279410038922801225421195193int),
        certified(33884415613920254705, 100000, 1995262314968879601352455396739int, 1995262314968879601352455396740int),
        certified(34276778654645035674, 100000, 2238721138568339611954950852465int, 2238721138568339611954950852466int),
        certified(34673685045253163946, 100000, 2511886431509580111085032067799int, 2511886431509580111085032067800int),
        certified(35075187395256800456, 100000, 2818382931264453819101923699155int, 2818382931264453819101923699156int),
        certified(35481338923357545844, 100000, 3162277660168379331998893544432int, 3162277660168379331998893544433int),
        certified(35892193464500521703, 100000, 3548133892335754584332187022644int, 3548133892335754584332187022645int),
        certified(36307805477010134247, 100000, 3981071705534972507702523050877int, 3981071705534972507702523050878int),
        certified(36728230049808466223, 100000, 4466835921509631185562505243193int, 4466835921509631185562505243194int),
        certified(37153522909717253862, 100000, 5011872336272722850015541868849int, 5011872336272722850015541868850int),
        certified(37583740428844416738, 100000, 5623413251903490803949510397764int, 5623413251903490803949510397765int),
        certified(38018939632056119615, 100000, 6309573444801932494343601366223int, 6309573444801932494343601366224int),
        certified(38459178204535356689, 100000, 7079457843841379108022149421893int, 7079457843841379108022149421894int),
        certified(38904514499428060110, 100000, 7943282347242815020659182828363int, 7943282347242815020659182828364int),
        certified(39355007545577746271, 100000, 8912509381337455299531086810782int, 8912509381337455299531086810783int),
{
    reveal(certified);
}

/// The entries for 120 to 139 tenths of a decibel above a multiple of
/// 20 dB.
#[verifier::nonlinear]
proof fn lemma_roots_6()
    ensures
        certified(39810717055349725078, 1000000, 999999999999999999999999999999int, 1000000000000000000000000000000int),
        certified(40271703432545909293, 1000000, 1122018454301963435591038946477int, 1122018454301963435591038946478int),
        certified(40738027780411273051, 1000000, 1258925411794167210423954106395int, 1258925411794167210423954106396int),
        certified(41209751909733020797, 1000000, 1412537544622754302155607863930int, 1412537544622754302155607863931int),
        certified(41686938347033540178, 1000000, 1584893192461113485202101373391int, 1584893192461113485202101373392int),
        certified(42169650342858224857, 1000000, 1778279410038922801225421195192int, 1778279410038922801225421195193int),
        certified(42657951880159265801, 1000000, 1995262314968879601352455396739int, 1995262314968879601352455396740int),
        certified(43151907682776522281, 1000000, 2238721138568339611954950852465int, 2238721138568339611954950852466int),
        certified(43651583224016596747, 1000000, 2511886431509580111085032067799int, 2511886431509580111085032067800int),
        certified(44157044735331250694, 1000000, 2818382931264453819101923699155int, 2818382931264453819101923699156int),
        certified(44668359215096311856, 1000000, 3162277660168379331998893544432int, 3162277660168379331998893544433int),
        certified(45185594437492236354, 1000000, 3548133892335754584332187022644int, 3548133892335754584332187022645int),
        certified(45708818961487502901, 1000000, 3981071705534972507702523050877int, 3981071705534972507702523050878int),
        certified(46238102139926029814, 1000000, 4466835921509631185562505243193int, 4466835921509631185562505243194int),
        certified(46773514128719819359, 1000000, 5011872336272722850015541868849int, 5011872336272722850015541868850int),
        certified(47315125896148047891, 1000000, 5623413251903490803949510397764int, 5623413251903490803949510397765int),
        certified(47863009232263834393, 1000000, 6309573444801932494343601366223int, 6309573444801932494343601366224int),
        certified(48417236758409934254, 1000000, 7079457843841379108022149421893int, 7079457843841379108022149421894int),
        certified(48977881936844619592, 1000000, 7943282347242815020659182828363int, 7943282347242815020659182828364int),
        certified(49545019080479022015, 1000000, 8912509381337455299531086810782int, 8912509381337455299531086810783int),
{
    reveal(certified);
}

/// The entries for 140 to 159 tenths of a decibel above a multiple of
/// 20 dB.
#[verifier::nonlinear]
proof fn lemma_roots_7()
    ensures
        certified(50118723362727228501, 10000000, 999999999999999999999999999999int, 1000000000000000000000000000000int),
        certified(50699070827470436006, 10000000, 1122018454301963435591038946477int, 1122018454301963435591038946478int),
        certified(51286138399136485555, 10000000, 1258925411794167210423954106395int, 1258925411794167210423954106396int),
        certified(51880003892896111824, 10000000, 1412537544622754302155607863930int, 1412537544622754302155607863931int),
        certified(52480746024977259737, 10000000, 1584893192461113485202101373391int, 1584893192461113485202101373392int),
        certified(53088444423098835221, 10000000, 1778279410038922801225421195192int, 1778279410038922801225421195193int),
        certified(53703179637025273091, 10000000, 1995262314968879601352455396739int, 1995262314968879601352455396740int),
        certified(54325033149243321083, 10000000, 2238721138568339611954950852465int, 2238721138568339611954950852466int),
        certified(54954087385762455210, 10000000, 2511886431509580111085032067799int, 2511886431509580111085032067800int),
        certified(55590425727040358038, 10000000, 2818382931264453819101923699155int, 2818382931264453819101923699156int),
        certified(56234132519034908040, 10000000, 3162277660168379331998893544432int, 3162277660168379331998893544433int),
        certified(56885293084384144947, 10000000, 3548133892335754584332187022644int, 3548133892335754584332187022645int),
        certified(57543993733715693007, 10000000, 3981071705534972507702523050877int, 3981071705534972507702523050878int),
        certified(58210321777087141185, 10000000, 4466835921509631185562505243193int, 4466835921509631185562505243194int),
        certified(58884365535558896727, 10000000, 5011872336272722850015541868849int, 5011872336272722850015541868850int),
        certified(59566214352901046051, 10000000, 5623413251903490803949510397764int, 5623413251903490803949510397765int),
        certified(60255958607435774698, 10000000, 6309573444801932494343601366223int, 6309573444801932494343601366224int),
        certified(60953689724016916040, 10000000, 7079457843841379108022149421893int, 7079457843841379108022149421894int),
        certified(61659500186148216633, 10000000, 7943282347242815020659182828363int, 7943282347242815020659182828364int),
        certified(62373483548241924460, 10000000, 8912509381337455299531086810782int, 8912509381337455299531086810783int),
{
    reveal(certified);
}

/// The entries for 160 to 179 tenths of a decibel above a multiple of
/// 20 dB.
#[verifier::nonlinear]
proof fn lemma_roots_8()
    ensures
        certified(63095734448019324944, 100000000, 999999999999999999999999999999int, 1000000000000000000000000000000int),
        certified(63826348619054868390, 100000000, 1122018454301963435591038946477int, 1122018454301963435591038946478int),
        certified(64565422903465551588, 100000000, 1258925411794167210423954106395int, 1258925411794167210423954106396int),
        certified(65313055264747235526, 100000000, 1412537544622754302155607863930int, 1412537544622754302155607863931int),
        certified(66069344800759600651, 100000000, 1584893192461113485202101373391int, 1584893192461113485202101373392int),
        certified(66834391756861460837, 100000000, 1778279410038922801225421195192int, 1778279410038922801225421195193int),
        certified(67608297539198177106, 100000000, 1995262314968879601352455396739int, 1995262314968879601352455396740int),
        certified(68391164728142932365, 100000000, 2238721138568339611954950852465int, 2238721138568339611954950852466int),
        certified(69183097091893648754, 100000000, 2511886431509580111085032067799int, 2511886431509580111085032067800int),
        certified(69984199600227349883, 100000000, 2818382931264453819101923699155int, 2818382931264453819101923699156int),
        certified(70794578438413791081, 100000000, 3162277660168379331998893544432int, 3162277660168379331998893544433int),
        certified(71614341021290201882, 100000000, 3548133892335754584332187022644int, 3548133892335754584332187022645int),
        certified(72443596007499006356, 100000000, 3981071705534972507702523050877int, 3981071705534972507702523050878int),
        certified(73282453313890408462, 100000000, 4466835921509631185562505243193int, 4466835921509631185562505243194int),
        certified(74131024130091751492, 100000000, 5011872336272722850015541868849int, 5011872336272722850015541868850int),
        certified(74989420933245582731, 100000000, 5623413251903490803949510397764int, 5623413251903490803949510397765int),
        certified(75857757502918376876, 100000000, 6309573444801932494343601366223int, 6309573444801932494343601366224int),
        certified(76736148936181894329, 100000000, 7079457843841379108022149421893int, 7079457843841379108022149421894int),
        certified(77624711662869173390, 100000000, 7943282347242815020659182828363int, 7943282347242815020659182828364int),
        certified(78523563461007178512, 100000000, 8912509381337455299531086810782int, 8912509381337455299531086810783int),
{
    reveal(certified);
}

/// The entries for 180 to 199 tenths of a decibel above a multiple of
/// 20 dB.
#[verifier::nonlinear]
proof fn lemma_roots_9()
    ensures
        certified(79432823472428150207, 1000000000, 999999999999999999999999999999int, 1000000000000000000000000000000int),
        certified(80352612218561725853, 1000000000, 1122018454301963435591038946477int, 1122018454301963435591038946478int),
        certified(81283051616409924655, 1000000000, 1258925411794167210423954106395int, 1258925411794167210423954106396int),
        certified(82224264994707114199, 1000000000, 1412537544622754302155607863930int, 1412537544622754302155607863931int),
        certified(83176377110267100617, 1000000000, 1584893192461113485202101373391int, 1584893192461113485202101373392int),
        certified(84139514164519509116, 1000000000, 1778279410038922801225421195192int, 1778279410038922801225421195193int),
        certified(85113803820237646782, 1000000000, 1995262314968879601352455396739int, 1995262314968879601352455396740int),
        certified(86099375218460064905, 1000000000, 2238721138568339611954950852465int, 2238721138568339611954950852466int),
        certified(87096358995608063752, 1000000000, 2511886431509580111085032067799int, 2511886431509580111085032067800int),
        certified(88104887300801408715, 1000000000, 2818382931264453819101923699155int, 2818382931264453819101923699156int),
        certified(89125093813374552996, 1000000000, 3162277660168379331998893544432int, 3162277660168379331998893544433int),
        certified(90157113760595688590, 1000000000, 3548133892335754584332187022644int, 3548133892335754584332187022645int),
        certified(91201083935590974213, 1000000000, 3981071705534972507702523050877int, 3981071705534972507702523050878int),
        certified(92257142715476316004, 1000000000, 4466835921509631185562505243193int, 4466835921509631185562505243194int),
        certified(93325430079699104354, 1000000000, 5011872336272722850015541868849int, 5011872336272722850015541868850int),
        certified(94406087628592338037, 1000000000, 5623413251903490803949510397764int, 5623413251903490803949510397765int),
        certified(95499258602143594973, 1000000000, 6309573444801932494343601366223int, 6309573444801932494343601366224int),
        certified(96605087898981337428, 1000000000, 7079457843841379108022149421893int, 7079457843841379108022149421894int),
        certified(97723722095581068270, 1000000000, 7943282347242815020659182828363int, 7943282347242815020659182828364int),
        certified(98855309465693884029, 1000000000, 8912509381337455299531086810782int, 8912509381337455299531086810783int),
{
    reveal(certified);
}

/// The powers of ten up to the nineteenth.
proof fn lemma_powers_of_ten()
    ensures
        pow(10, 0) == 1,
        pow(10, 1) == 10,
        pow(10, 2) == 100,
        pow(10, 3) == 1000,
        pow(10, 4) == 10000,
        pow(10, 5) == 100000,
        pow(10, 6) == 1000000,
        pow(10, 7) == 10000000,
        pow(10, 8) == 100000000,
        pow(10, 9) == 1000000000,
        pow(10, 10) == 10000000000,
        pow(10, 11) == 100000000000,
        pow(10, 12) == 1000000000000,
        pow(10, 13) == 10000000000000,
        pow(10, 14) == 100000000000000,
        pow(10, 15) == 1000000000000000,
        pow(10, 16) == 10000000000000000,
        pow(10, 17) == 100000000000000000,
        pow(10, 18) == 1000000000000000000,
        pow(10, 19) == 10000000000000000000,
{
    reveal_with_fuel(pow, 21);
}

/// [`pow10`] is the tenth power and [`pow20`] the twentieth.
proof fn lemma_pow10(x: int)
    ensures
        pow(x, 10) == pow10(x),
        pow(x, 20) == pow20(x),
{
    lemma_pow1(x);
    lemma_pow_adds(x, 1, 1);
    lemma_pow_adds(x, 2, 2);
    lemma_pow_adds(x, 4, 1);
    lemma_pow_adds(x, 5, 5);
    lemma_pow_adds(x, 10, 10);
}

/// Raising to a power keeps the order of whole numbers that are not
/// negative.
proof fn lemma_pow_keeps_order(a: int, b: int, e: nat)
    requires
        0 <= a <= b,
    ensures
        0 <= pow(a, e) <= pow(b, e),
    decreases e,
{
    reveal(pow);
    if e > 0 {
        lemma_pow_keeps_order(a, b, (e - 1) as nat);
        assert(a * pow(a, (e - 1) as nat) <= b * pow(b, (e - 1) as nat)) by (nonlinear_arith)
            requires
                0 <= a <= b,
                0 <= pow(a, (e - 1) as nat) <= pow(b, (e - 1) as nat),
        ;
        assert(0 <= a * pow(a, (e - 1) as nat)) by (nonlinear_arith)
            requires
                0 <= a,
                0 <= pow(a, (e - 1) as nat),
        ;
    }
}

/// A power with an exponent of one at least is smaller for the smaller of
/// two whole numbers that are not negative.
proof fn lemma_pow_strictly_grows(a: int, b: int, e: nat)
    requires
        0 <= a < b,
        e >= 1,
    ensures
        pow(a, e) < pow(b, e),
{
    lemma_pow_keeps_order(a, b, (e - 1) as nat);
    lemma_pow_positive(b, (e - 1) as nat);
    reveal(pow);
    assert(a * pow(a, (e - 1) as nat) < b * pow(b, (e - 1) as nat)) by (nonlinear_arith)
        requires
            0 <= a < b,
            0 <= pow(a, (e - 1) as nat) <= pow(b, (e - 1) as nat),
            0 < pow(b, (e - 1) as nat),
    ;
}

/// The bracket for `b` holds `10^(30 + b/20)`: the twentieth power of its
/// lower end is below `10^(600 + b)`, and that of its upper end is not.
proof fn lemma_bracket(b: int)
    requires
        0 <= b < 20,
    ensures
        0 < bracket_high(b),
        pow(bracket_high(b) - 1, 20) < pow(10, (600 + b) as nat) <= pow(bracket_high(b), 20),
{
    let high = bracket_high(b);
    let unit = 1000000000000000000000000000000int;
    lemma_brackets();
    lemma_powers_of_ten();
    assert(bracketed(high - 1, high, pow(10, b as nat)));
    reveal(bracketed);
    lemma_pow10(high);
    lemma_pow10(high - 1);
    lemma_pow10(unit);
    // 10^30 is the unit, and its twentieth power is 10^600
    lemma_pow_adds(10, 15, 15);
    assert(pow(10, 30) == unit) by (nonlinear_arith)
        requires
            pow(10, 30) == pow(10, 15) * pow(10, 15),
            pow(10, 15) == 1000000000000000,
            unit == 1000000000000000000000000000000int,
    ;
    lemma_pow_multiplies(10, 30, 20);
    lemma_pow_adds(10, b as nat, 600);
}

/// The entry that is certified for `a` and `b` is the least whole number
/// that is not below `10^(19 + (20 a + b)/200)`: the two-hundredth power of
/// the number before it is below `10^(3800 + 20 a + b)`, and its own is
/// not.
proof fn lemma_certified_root(k: int, a: int, b: int)
    requires
        0 < k,
        0 <= a < 10,
        0 <= b < 20,
        certified(k, ten(a), bracket_high(b) - 1, bracket_high(b)),
    ensures
        pow(k - 1, 200) < pow(10, (3800 + 20 * a + b) as nat) <= pow(k, 200),
{
    let high = bracket_high(b);
    let low = high - 1;
    let shift = pow(10, (160 + a) as nat);
    let goal = pow(10, (3800 + 20 * a + b) as nat);
    let part = pow(10, (600 + b) as nat);
    lemma_bracket(b);
    lemma_powers_of_ten();
    reveal(certified);
    lemma_pow10(k);
    lemma_pow10(k - 1);
    lemma_pow10(10000000000000000);
    // 10^160 * 10^a is the shift
    lemma_pow_multiplies(10, 16, 10);
    lemma_pow_adds(10, 160, a as nat);
    assert(pow10(10000000000000000) * ten(a) == shift);
    assert(pow(k - 1, 10) <= shift * low && shift * high <= pow(k, 10)) by (nonlinear_arith)
        requires
            pow10(k - 1) <= pow10(10000000000000000) * ten(a) * low,
            pow10(10000000000000000) * ten(a) * high <= pow10(k),
            pow10(10000000000000000) * ten(a) == shift,
            pow(k - 1, 10) == pow10(k - 1),
            pow(k, 10) == pow10(k),
    ;
    // the shift to the twentieth power, times 10^(600 + b), is the goal
    lemma_pow_positive(10, (160 + a) as nat);
    lemma_pow_multiplies(10, (160 + a) as nat, 20);
    assert((160 + a) * 20 == 3200 + 20 * a) by (nonlinear_arith);
    lemma_pow_adds(10, (3200 + 20 * a) as nat, (600 + b) as nat);
    lemma_pow_positive(shift, 20);
    assert(pow(shift, 20) * part == goal);
    // upward
    assert(0 <= shift * high) by (nonlinear_arith)
        requires
            0 < shift,
            0 < high,
    ;
    lemma_pow_keeps_order(shift * high, pow(k, 10), 20);
    lemma_pow_distributes(shift, high, 20);
    lemma_pow_multiplies(k, 10, 20);
    assert(goal <= pow(k, 200)) by (nonlinear_arith)
        requires
            pow(shift, 20) * part == goal,
            part <= pow(high, 20),
            0 < pow(shift, 20),
            pow(shift * high, 20) == pow(shift, 20) * pow(high, 20),
            pow(shift * high, 20) <= pow(pow(k, 10), 20),
            pow(pow(k, 10), 20) == pow(k, 200),
    ;
    // downward
    lemma_pow_keeps_order(0, k - 1, 10);
    lemma_pow_keeps_order(pow(k - 1, 10), shift * low, 20);
    lemma_pow_distributes(shift, low, 20);
    lemma_pow_multiplies(k - 1, 10, 20);
    assert(pow(k - 1, 200) < goal) by (nonlinear_arith)
        requires
            pow(shift, 20) * part == goal,
            pow(low, 20) < part,
            0 < pow(shift, 20),
            pow(shift * low, 20) == pow(shift, 20) * pow(low, 20),
            pow(pow(k - 1, 10), 20) <= pow(shift * low, 20),
            pow(pow(k - 1, 10), 20) == pow(k - 1, 200),
    ;
}

/// The whole number `t` parts the sizes below `10^(e/200)` from the others.
pub open spec fn parts_at(t: int, e: nat) -> bool {
    &&& 1 <= t
    &&& pow(t - 1, 200) < pow(10, e)
    &&& pow(10, e) <= pow(t, 200)
}

/// A table entry for `r`, divided by `10^(19 - q)` and rounded up, parts
/// the sizes at `10^((200 q + r)/200)`.
proof fn lemma_threshold_parts(q: nat, r: nat, k: int, divisor: int, t: int)
    requires
        q <= 18,
        r < 200,
        0 < k,
        certified(
            k,
            ten(r as int / 20),
            bracket_high(r as int % 20) - 1,
            bracket_high(r as int % 20),
        ),
        divisor == pow(10, (19 - q) as nat),
        t == (k + divisor - 1) / divisor,
    ensures
        parts_at(t, 200 * q + r),
{
    let e: nat = 200 * q + r;
    let tens = pow(10, r);
    let base = pow(10, 19);
    let lift = pow(divisor, 200);
    lemma_fundamental_div_mod(r as int, 20);
    lemma_mod_bound(r as int, 20);
    assert(20 * (r as int / 20) + r as int % 20 == r);
    lemma_certified_root(k, r as int / 20, r as int % 20);
    // 10^(3800 + r) == 10^r * (10^19)^200
    lemma_pow_multiplies(10, 19, 200);
    lemma_pow_adds(10, r, 3800);
    assert(pow(k - 1, 200) < tens * pow(base, 200) <= pow(k, 200));
    // the divisor is positive, and so is its two-hundredth power
    lemma_pow_positive(10, (19 - q) as nat);
    lemma_pow_positive(divisor, 200);
    // rounding up: (t - 1) * divisor < k <= t * divisor
    let top = k + divisor - 1;
    lemma_fundamental_div_mod(top, divisor);
    lemma_mod_bound(top, divisor);
    assert(k <= t * divisor && (t - 1) * divisor <= k - 1) by (nonlinear_arith)
        requires
            top == divisor * t + top % divisor,
            0 <= top % divisor < divisor,
            top == k + divisor - 1,
    ;
    assert(1 <= t) by (nonlinear_arith)
        requires
            k <= t * divisor,
            0 < divisor,
            0 < k,
    ;
    assert(0 <= (t - 1) * divisor) by (nonlinear_arith)
        requires
            1 <= t,
            0 < divisor,
    ;
    lemma_pow_keeps_order(k, t * divisor, 200);
    lemma_pow_keeps_order((t - 1) * divisor, k - 1, 200);
    lemma_pow_distributes(t, divisor, 200);
    lemma_pow_distributes(t - 1, divisor, 200);
    // 10^r * (10^19)^200 == 10^e * divisor^200
    lemma_pow_adds(10, q, (19 - q) as nat);
    assert(base == pow(10, q) * divisor);
    lemma_pow_distributes(pow(10, q), divisor, 200);
    lemma_pow_multiplies(10, q, 200);
    assert(q * 200 == 200 * q) by (nonlinear_arith);
    lemma_pow_adds(10, r, 200 * q);
    assert(r + 200 * q == e);
    assert(tens * pow(base, 200) == pow(10, e) * lift) by (nonlinear_arith)
        requires
            pow(base, 200) == pow(10, 200 * q) * lift,
            pow(10, e) == tens * pow(10, 200 * q),
    ;
    assert(pow(10, e) <= pow(t, 200)) by (nonlinear_arith)
        requires
            pow(10, e) * lift <= pow(t, 200) * lift,
            0 < lift,
    ;
    assert(pow(t - 1, 200) < pow(10, e)) by (nonlinear_arith)
        requires
            pow(t - 1, 200) * lift < pow(10, e) * lift,
            0 < lift,
    ;
}

/// Where `t` parts the sizes at `10^(e/200)`, a size is below that level
/// exactly when it is below `t`.
proof fn lemma_parts_decides(t: int, e: nat, size: int)
    requires
        parts_at(t, e),
        0 <= size,
    ensures
        size < t <==> pow(size, 200) < pow(10, e),
{
    if size < t {
        lemma_pow_keeps_order(size, t - 1, 200);
    } else {
        lemma_pow_keeps_order(t, size, 200);
    }
}

/// The least whole number that is not below `10^(19 + r/200)`, with what
/// shows it to be that.
fn root_entry(r: u64) -> (k: u128)
    requires
        r < 200,
    ensures
        0 < k <= 99_999_999_999_999_999_999,
        certified(
            k as int,
            ten(r as int / 20),
            bracket_high(r as int % 20) - 1,
            bracket_high(r as int % 20),
        ),
{
    proof {
        lemma_roots_0();
        lemma_roots_1();
        lemma_roots_2();
        lemma_roots_3();
        lemma_roots_4();
        lemma_roots_5();
        lemma_roots_6();
        lemma_roots_7();
        lemma_roots_8();
        lemma_roots_9();
    }
    if r == 0 {
        10000000000000000000
    } else if r == 1 {
        10115794542598985245
    } else if r == 2 {
        10232929922807541310
    } else if r == 3 {
        10351421666793438173
    } else if r == 4 {
        10471285480508995335
    } else if r == 5 {
        10592537251772888789
    } else if r == 6 {
        10715193052376064175
    } else if r == 7 {
        10839269140212035264
    } else if r == 8 {
        10964781961431850132
    } else if r == 9 {
        11091748152624010667
    } else if r == 10 {
        11220184543019634356
    } else if r == 11 {
        11350108156723150640
    } else if r == 12 {
        11481536214968827516
    } else if r == 13 {
        11614486138403427486
    } else if r == 14 {
        11748975549395295418
    } else if r == 15 {
        11885022274370184378
    } else if r == 16 {
        12022644346174129059
    } else if r == 17 {
        12161860006463679988
    } else if r == 18 {
        12302687708123815343
    } else if r == 19 {
        12445146117713850871
    } else if r == 20 {
        12589254117941672105
    } else if r == 21 {
        12735030810166616841
    } else if r == 22 {
        12882495516931339629
    } else if r == 23 {
        13031667784522993873
    } else if r == 24 {
        13182567385564071021
    } else if r == 25 {
        13335214321633240257
    } else if r == 26 {
        13489628825916536093
    } else if r == 27 {
        13645831365889245258
    } else if r == 28 {
        13803842646028848379
    } else if r == 29 {
        13963683610559376047
    } else if r == 30 {
        14125375446227543022
    } else if r == 31 {
        14288939585111028566
    } else if r == 32 {
        14454397707459275120
    } else if r == 33 {
        14621771744567181889
    } else if r == 34 {
        14791083881682074222
    } else if r == 35 {
        14962356560944334119
    } else if r == 36 {
        15135612484362081625
    } else if r == 37 {
        15310874616820301420
    } else if r == 38 {
        15488166189124813447
    } else if r == 39 {
        15667510701081491064
    } else if r == 40 {
        15848931924611134853
    } else if r == 41 {
        16032453906900414978
    } else if r == 42 {
        16218100973589299729
    } else if r == 43 {
        16405897731995392752
    } else if r == 44 {
        16595869074375606344
    } else if r == 45 {
        16788040181225603140
    } else if r == 46 {
        16982436524617443547
    } else if r == 47 {
        17179083871575881296
    } else if r == 48 {
        17378008287493754670
    } else if r == 49 {
        17579236139586926090
    } else if r == 50 {
        17782794100389228013
    } else if r == 51 {
        17988709151287878408
    } else if r == 52 {
        18197008586099834402
    } else if r == 53 {
        18407720014689558154
    } else if r == 54 {
        18620871366628674487
    } else if r == 55 {
        18836490894898005351
    } else if r == 56 {
        19054607179632471827
    } else if r == 57 {
        19275249131909360062
    } else if r == 58 {
        19498445997580453236
    } else if r == 59 {
        19724227361148537549
    } else if r == 60 {
        19952623149688796014
    } else if r == 61 {
        20183663636815609857
    } else if r == 62 {
        20417379446695293315
    } else if r == 63 {
        20653801558105293707
    } else if r == 64 {
        20892961308540394832
    } else if r == 65 {
        21134890398366467956
    } else if r == 66 {
        21379620895022320976
    } else if r == 67 {
        21627185237270202694
    } else if r == 68 {
        21877616239495525623
    } else if r == 69 {
        22130947096056377224
    } else if r == 70 {
        22387211385683396120
    } else if r == 71 {
        22646443075930596469
    } else if r == 72 {
        22908676527677730458
    } else if r == 73 {
        23173946499684785691
    } else if r == 74 {
        23442288153199221182
    } else if r == 75 {
        23713737056616552617
    } else if r == 76 {
        23988329190194904654
    } else if r == 77 {
        24266100950824155163
    } else if r == 78 {
        24547089156850303561
    } else if r == 79 {
        24831331052955702687
    } else if r == 80 {
        25118864315095801111
    } else if r == 81 {
        25409727055493050217
    } else if r == 82 {
        25703957827688638008
    } else if r == 83 {
        26001595631652719229
    } else if r == 84 {
        26302679918953819173
    } else if r == 85 {
        26607250597988096350
    } else if r == 86 {
        26915348039269157174
    } else if r == 87 {
        27227013080779123814
    } else if r == 88 {
        27542287033381664487
    } else if r == 89 {
        27861211686297703695
    } else if r == 90 {
        28183829312644538192
    } else if r == 91 {
        28510182675039092891
    } else if r == 92 {
        28840315031266059424
    } else if r == 93 {
        29174270140011668642
    } else if r == 94 {
        29512092266663857080
    } else if r == 95 {
        29853826189179596180
    } else if r == 96 {
        30199517204020161987
    } else if r == 97 {
        30549211132155132028
    } else if r == 98 {
        30902954325135905196
    } else if r == 99 {
        31260793671239549684
    } else if r == 100 {
        31622776601683793320
    } else if r == 101 {
        31988951096913980105
    } else if r == 102 {
        32359365692962826268
    } else if r == 103 {
        32734069487883818834
    } else if r == 104 {
        33113112148259109431
    } else if r == 105 {
        33496543915782765955
    } else if r == 106 {
        33884415613920254705
    } else if r == 107 {
        34276778654645035674
    } else if r == 108 {
        34673685045253163946
    } else if r == 109 {
        35075187395256800456
    } else if r == 110 {
        35481338923357545844
    } else if r == 111 {
        35892193464500521703
    } else if r == 112 {
        36307805477010134247
    } else if r == 113 {
        36728230049808466223
    } else if r == 114 {
        37153522909717253862
    } else if r == 115 {
        37583740428844416738
    } else if r == 116 {
        38018939632056119615
    } else if r == 117 {
        38459178204535356689
    } else if r == 118 {
        38904514499428060110
    } else if r == 119 {
        39355007545577746271
    } else if r == 120 {
        39810717055349725078
    } else if r == 121 {
        40271703432545909293
    } else if r == 122 {
        40738027780411273051
    } else if r == 123 {
        41209751909733020797
    } else if r == 124 {
        41686938347033540178
    } else if r == 125 {
        42169650342858224857
    } else if r == 126 {
        42657951880159265801
    } else if r == 127 {
        43151907682776522281
    } else if r == 128 {
        43651583224016596747
    } else if r == 129 {
        44157044735331250694
    } else if r == 130 {
        44668359215096311856
    } else if r == 131 {
        45185594437492236354
    } else if r == 132 {
        45708818961487502901
    } else if r == 133 {
        46238102139926029814
    } else if r == 134 {
        46773514128719819359
    } else if r == 135 {
        47315125896148047891
    } else if r == 136 {
        47863009232263834393
    } else if r == 137 {
        48417236758409934254
    } else if r == 138 {
        48977881936844619592
    } else if r == 139 {
        49545019080479022015
    } else if r == 140 {
        50118723362727228501
    } else if r == 141 {
        50699070827470436006
    } else if r == 142 {
        51286138399136485555
    } else if r == 143 {
        51880003892896111824
    } else if r == 144 {
        52480746024977259737
    } else if r == 145 {
        53088444423098835221
    } else if r == 146 {
        53703179637025273091
    } else if r == 147 {
        54325033149243321083
    } else if r == 148 {
        54954087385762455210
    } else if r == 149 {
        55590425727040358038
    } else if r == 150 {
        56234132519034908040
    } else if r == 151 {
        56885293084384144947
    } else if r == 152 {
        57543993733715693007
    } else if r == 153 {
        58210321777087141185
    } else if r == 154 {
        58884365535558896727
    } else if r == 155 {
        59566214352901046051
    } else if r == 156 {
        60255958607435774698
    } else if r == 157 {
        60953689724016916040
    } else if r == 158 {
        61659500186148216633
    } else if r == 159 {
        62373483548241924460
    } else if r == 160 {
        63095734448019324944
    } else if r == 161 {
        63826348619054868390
    } else if r == 162 {
        64565422903465551588
    } else if r == 163 {
        65313055264747235526
    } else if r == 164 {
        66069344800759600651
    } else if r == 165 {
        66834391756861460837
    } else if r == 166 {
        67608297539198177106
    } else if r == 167 {
        68391164728142932365
    } else if r == 168 {
        69183097091893648754
    } else if r == 169 {
        69984199600227349883
    } else if r == 170 {
        70794578438413791081
    } else if r == 171 {
        71614341021290201882
    } else if r == 172 {
        72443596007499006356
    } else if r == 173 {
        73282453313890408462
    } else if r == 174 {
        74131024130091751492
    } else if r == 175 {
        74989420933245582731
    } else if r == 176 {
        75857757502918376876
    } else if r == 177 {
        76736148936181894329
    } else if r == 178 {
        77624711662869173390
    } else if r == 179 {
        78523563461007178512
    } else if r == 180 {
        79432823472428150207
    } else if r == 181 {
        80352612218561725853
    } else if r == 182 {
        81283051616409924655
    } else if r == 183 {
        82224264994707114199
    } else if r == 184 {
        83176377110267100617
    } else if r == 185 {
        84139514164519509116
    } else if r == 186 {
        85113803820237646782
    } else if r == 187 {
        86099375218460064905
    } else if r == 188 {
        87096358995608063752
    } else if r == 189 {
        88104887300801408715
    } else if r == 190 {
        89125093813374552996
    } else if r == 191 {
        90157113760595688590
    } else if r == 192 {
        91201083935590974213
    } else if r == 193 {
        92257142715476316004
    } else if r == 194 {
        93325430079699104354
    } else if r == 195 {
        94406087628592338037
    } else if r == 196 {
        95499258602143594973
    } else if r == 197 {
        96605087898981337428
    } else if r == 198 {
        97723722095581068270
    } else {
        98855309465693884029
    }
}

/// `10^n` for an `n` of at most nineteen.
fn power_of_ten(n: u64) -> (p: u128)
    requires
        n <= 19,
    ensures
        p as int == pow(10, n as nat),
        1 <= p <= 10000000000000000000,
        n >= 1 ==> p >= 10,
{
    let mut p: u128 = 1;
    let mut i: u64 = 0;
    proof {
        lemma_pow0(10);
        lemma_powers_of_ten();
    }
    while i < n
        invariant
            i <= n <= 19,
            p as int == pow(10, i as nat),
            1 <= p,
            i >= 1 ==> p >= 10,
            p as int * pow(10, (19 - i) as nat) == 10000000000000000000,
        decreases n - i,
    {
        proof {
            reveal(pow);
            lemma_pow_positive(10, (18 - i) as nat);
            assert(pow(10, (19 - i) as nat) == 10 * pow(10, (18 - i) as nat));
            assert(pow(10, (i + 1) as nat) == 10 * pow(10, i as nat));
            assert(p * 10 * pow(10, (18 - i) as nat) == 10000000000000000000) by (nonlinear_arith)
                requires
                    p as int * (10 * pow(10, (18 - i) as nat)) == 10000000000000000000,
            ;
            assert(p * 10 <= 10000000000000000000) by (nonlinear_arith)
                requires
                    p * 10 * pow(10, (18 - i) as nat) == 10000000000000000000,
                    1 <= pow(10, (18 - i) as nat),
                    1 <= p,
            ;
        }
        p = p * 10;
        i += 1;
    }
    proof {
        lemma_pow_positive(10, (19 - i) as nat);
        assert(p <= 10000000000000000000) by (nonlinear_arith)
            requires
                p as int * pow(10, (19 - i) as nat) == 10000000000000000000,
                1 <= pow(10, (19 - i) as nat),
                1 <= p,
        ;
    }
    p
}

/// The threshold, in millionths, that stands for a level of `level` tenths
/// of a decibel: a magnitude is below `10^(level/200)` exactly when it is
/// below the threshold. From 260 dB on, where every magnitude that an
/// amplitude can have is below the level, the threshold is the largest
/// number there is.
pub fn decibel_threshold(level: i32) -> (threshold: u64)
    ensures
        level < 2600 ==> forall|size: int|
            0 <= size ==> (size < threshold <==> #[trigger] below_decibels(size, level as int)),
        level >= 2600 ==> threshold == u64::MAX && forall|size: int|
            0 <= size <= 0x8000_0000_0000_0000 ==> #[trigger] below_decibels(size, level as int),
{
    let e: i64 = level as i64 + 1200;
    if e <= 0 {
        proof {
            assert forall|size: int| 0 <= size implies (size < 1 <==> #[trigger] below_decibels(
                size,
                level as int,
            )) by {
                lemma_floor_level(size, level as int);
            }
        }
        1
    } else if e >= 3800 {
        proof {
            assert forall|size: int| 0 <= size <= 0x8000_0000_0000_0000 implies #[trigger] below_decibels(
                size,
                level as int,
            ) by {
                lemma_ceiling_level(size, level as int);
            }
        }
        0xffff_ffff_ffff_ffff
    } else {
        let q: u64 = (e / 200) as u64;
        let r: u64 = (e % 200) as u64;
        let k: u128 = root_entry(r);
        let divisor: u128 = power_of_ten(19 - q);
        let t: u128 = (k + divisor - 1) / divisor;
        proof {
            assert(e as int == 200 * (q as int) + r as int);
            lemma_threshold_parts(q as nat, r as nat, k as int, divisor as int, t as int);
            let top = k + divisor - 1;
            lemma_fundamental_div_mod(top, divisor as int);
            lemma_mod_bound(top, divisor as int);
            assert(t <= 10000000000000000000) by (nonlinear_arith)
                requires
                    top == divisor * t + top % (divisor as int),
                    0 <= top % (divisor as int),
                    top == k + divisor - 1,
                    k <= 99_999_999_999_999_999_999,
                    divisor >= 10,
                    t >= 0,
            ;
            assert forall|size: int| 0 <= size implies (size < t <==> #[trigger] below_decibels(
                size,
                level as int,
            )) by {
                lemma_parts_decides(t as int, e as nat, size);
            }
        }
        t as u64
    }
}

/// At or below -120 dB only the magnitude zero is below the level.
proof fn lemma_floor_level(size: int, level: int)
    requires
        0 <= size,
        level + 1200 <= 0,
    ensures
        size < 1 <==> below_decibels(size, level),
{
    let e = level + 1200;
    lemma_pow0(10);
    lemma_pow_positive(10, (-e) as nat);
    if size == 0 {
        vstd::arithmetic::power::lemma0_pow(200);
        assert(pow(0, 200) * pow(10, (-e) as nat) == 0) by (nonlinear_arith)
            requires
                pow(0, 200) == 0,
        ;
    } else {
        lemma_pow_keeps_order(1, size, 200);
        vstd::arithmetic::power::lemma1_pow(200);
        assert(pow(size, 200) * pow(10, (-e) as nat) >= 1) by (nonlinear_arith)
            requires
                pow(size, 200) >= 1,
                pow(10, (-e) as nat) >= 1,
        ;
    }
}

/// From 260 dB on every magnitude that an amplitude can have is below the
/// level.
proof fn lemma_ceiling_level(size: int, level: int)
    requires
        0 <= size <= 0x8000_0000_0000_0000,
        level + 1200 >= 3800,
    ensures
        below_decibels(size, level),
{
    let e = (level + 1200) as nat;
    lemma_pow_strictly_grows(size, 10000000000000000000, 200);
    lemma_powers_of_ten();
    lemma_pow_multiplies(10, 19, 200);
    lemma_pow_increases(10, 3800, e);
}

} // verus!
