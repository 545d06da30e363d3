//! The two field primes are prime. Each prime in this file is shown to be one
//! by a generator of its units, which takes the primes that divide its
//! predecessor; those are shown to be primes in the same way, down to two.
use crate::lemmas::primes::{
    is_field_modulus, is_generator, lemma_field_modulus_two, lemma_full_order_generates,
    lemma_generator_implies_field, lemma_mod_exp, lemma_no_early_unit_extend,
    lemma_no_early_unit_start, mod_exp,
};
use vstd::prelude::*;

verus! {

/// Powers of the generators of the primes from 3 to 41, each to the
/// predecessor of its prime and to that predecessor divided by each of its
/// prime factors.
proof fn lemma_powers_first()
    by (bit_vector)
    ensures
        mod_exp(2, 2, 3) == 1,
        mod_exp(2, 1, 3) == 2,
        mod_exp(2, 4, 5) == 1,
        mod_exp(2, 2, 5) == 4,
        mod_exp(3, 6, 7) == 1,
        mod_exp(3, 3, 7) == 6,
        mod_exp(3, 2, 7) == 2,
        mod_exp(2, 10, 11) == 1,
        mod_exp(2, 5, 11) == 10,
        mod_exp(2, 2, 11) == 4,
        mod_exp(2, 12, 13) == 1,
        mod_exp(2, 6, 13) == 12,
        mod_exp(2, 4, 13) == 3,
        mod_exp(3, 16, 17) == 1,
        mod_exp(3, 8, 17) == 16,
        mod_exp(2, 18, 19) == 1,
        mod_exp(2, 9, 19) == 18,
        mod_exp(2, 6, 19) == 7,
        mod_exp(5, 22, 23) == 1,
        mod_exp(5, 11, 23) == 22,
        mod_exp(5, 2, 23) == 2,
        mod_exp(2, 28, 29) == 1,
        mod_exp(2, 14, 29) == 28,
        mod_exp(2, 4, 29) == 16,
        mod_exp(3, 30, 31) == 1,
        mod_exp(3, 15, 31) == 30,
        mod_exp(3, 10, 31) == 25,
        mod_exp(3, 6, 31) == 16,
        mod_exp(2, 36, 37) == 1,
        mod_exp(2, 18, 37) == 36,
        mod_exp(2, 12, 37) == 26,
        mod_exp(6, 40, 41) == 1,
        mod_exp(6, 20, 41) == 40,
        mod_exp(6, 8, 41) == 10,
{
}

/// Powers of the generators of the primes from 47 to 137, each to the
/// predecessor of its prime and to that predecessor divided by each of its
/// prime factors.
proof fn lemma_powers_second()
    by (bit_vector)
    ensures
        mod_exp(5, 46, 47) == 1,
        mod_exp(5, 23, 47) == 46,
        mod_exp(5, 2, 47) == 25,
        mod_exp(2, 52, 53) == 1,
        mod_exp(2, 26, 53) == 52,
        mod_exp(2, 4, 53) == 16,
        mod_exp(2, 66, 67) == 1,
        mod_exp(2, 33, 67) == 66,
        mod_exp(2, 22, 67) == 37,
        mod_exp(2, 6, 67) == 64,
        mod_exp(7, 70, 71) == 1,
        mod_exp(7, 35, 71) == 70,
        mod_exp(7, 14, 71) == 54,
        mod_exp(7, 10, 71) == 45,
        mod_exp(5, 72, 73) == 1,
        mod_exp(5, 36, 73) == 72,
        mod_exp(5, 24, 73) == 8,
        mod_exp(2, 82, 83) == 1,
        mod_exp(2, 41, 83) == 82,
        mod_exp(2, 2, 83) == 4,
        mod_exp(3, 88, 89) == 1,
        mod_exp(3, 44, 89) == 88,
        mod_exp(3, 8, 89) == 64,
        mod_exp(2, 106, 107) == 1,
        mod_exp(2, 53, 107) == 106,
        mod_exp(2, 2, 107) == 4,
        mod_exp(6, 108, 109) == 1,
        mod_exp(6, 54, 109) == 108,
        mod_exp(6, 36, 109) == 63,
        mod_exp(3, 126, 127) == 1,
        mod_exp(3, 63, 127) == 126,
        mod_exp(3, 42, 127) == 107,
        mod_exp(3, 18, 127) == 4,
        mod_exp(3, 136, 137) == 1,
        mod_exp(3, 68, 137) == 136,
        mod_exp(3, 8, 137) == 122,
{
}

/// Powers of the generators of the primes from 223 to 491, each to the
/// predecessor of its prime and to that predecessor divided by each of its
/// prime factors.
proof fn lemma_powers_third()
    by (bit_vector)
    ensures
        mod_exp(3, 222, 223) == 1,
        mod_exp(3, 111, 223) == 222,
        mod_exp(3, 74, 223) == 183,
        mod_exp(3, 6, 223) == 60,
        mod_exp(6, 228, 229) == 1,
        mod_exp(6, 114, 229) == 228,
        mod_exp(6, 76, 229) == 134,
        mod_exp(6, 12, 229) == 165,
        mod_exp(3, 232, 233) == 1,
        mod_exp(3, 116, 233) == 232,
        mod_exp(3, 8, 233) == 37,
        mod_exp(6, 270, 271) == 1,
        mod_exp(6, 135, 271) == 270,
        mod_exp(6, 90, 271) == 242,
        mod_exp(6, 54, 271) == 10,
        mod_exp(17, 310, 311) == 1,
        mod_exp(17, 155, 311) == 310,
        mod_exp(17, 62, 311) == 36,
        mod_exp(17, 10, 311) == 260,
        mod_exp(2, 378, 379) == 1,
        mod_exp(2, 189, 379) == 378,
        mod_exp(2, 126, 379) == 327,
        mod_exp(2, 54, 379) == 125,
        mod_exp(21, 408, 409) == 1,
        mod_exp(21, 204, 409) == 408,
        mod_exp(21, 136, 409) == 355,
        mod_exp(21, 24, 409) == 5,
        mod_exp(3, 448, 449) == 1,
        mod_exp(3, 224, 449) == 448,
        mod_exp(3, 64, 449) == 324,
        mod_exp(2, 490, 491) == 1,
        mod_exp(2, 245, 491) == 490,
        mod_exp(2, 98, 491) == 381,
        mod_exp(2, 70, 491) == 138,
{
}

/// Powers of the generators of the primes from 661 to 2221, each to the
/// predecessor of its prime and to that predecessor divided by each of its
/// prime factors.
proof fn lemma_powers_fourth()
    by (bit_vector)
    ensures
        mod_exp(2, 660, 661) == 1,
        mod_exp(2, 330, 661) == 660,
        mod_exp(2, 220, 661) == 296,
        mod_exp(2, 132, 661) == 247,
        mod_exp(2, 60, 661) == 634,
        mod_exp(3, 822, 823) == 1,
        mod_exp(3, 411, 823) == 822,
        mod_exp(3, 274, 823) == 648,
        mod_exp(3, 6, 823) == 729,
        mod_exp(2, 852, 853) == 1,
        mod_exp(2, 426, 853) == 852,
        mod_exp(2, 284, 853) == 632,
        mod_exp(2, 12, 853) == 684,
        mod_exp(17, 910, 911) == 1,
        mod_exp(17, 455, 911) == 910,
        mod_exp(17, 182, 911) == 19,
        mod_exp(17, 130, 911) == 49,
        mod_exp(17, 70, 911) == 900,
        mod_exp(5, 982, 983) == 1,
        mod_exp(5, 491, 983) == 982,
        mod_exp(5, 2, 983) == 25,
        mod_exp(3, 1230, 1231) == 1,
        mod_exp(3, 615, 1231) == 1230,
        mod_exp(3, 410, 1231) == 126,
        mod_exp(3, 246, 1231) == 401,
        mod_exp(3, 30, 1231) == 1000,
        mod_exp(2, 1636, 1637) == 1,
        mod_exp(2, 818, 1637) == 1636,
        mod_exp(2, 4, 1637) == 16,
        mod_exp(2, 2220, 2221) == 1,
        mod_exp(2, 1110, 2221) == 2220,
        mod_exp(2, 740, 2221) == 543,
        mod_exp(2, 444, 2221) == 330,
        mod_exp(2, 60, 2221) == 980,
{
}

/// Powers of the generators of the primes from 3557 to 41927, each to the
/// predecessor of its prime and to that predecessor divided by each of its
/// prime factors.
proof fn lemma_powers_fifth()
    by (bit_vector)
    ensures
        mod_exp(2, 3556, 3557) == 1,
        mod_exp(2, 1778, 3557) == 3556,
        mod_exp(2, 508, 3557) == 1974,
        mod_exp(2, 28, 3557) == 2894,
        mod_exp(2, 3690, 3691) == 1,
        mod_exp(2, 1845, 3691) == 3690,
        mod_exp(2, 1230, 3691) == 3216,
        mod_exp(2, 738, 3691) == 643,
        mod_exp(2, 90, 3691) == 1752,
        mod_exp(3, 4998, 4999) == 1,
        mod_exp(3, 2499, 4999) == 4998,
        mod_exp(3, 1666, 4999) == 2661,
        mod_exp(3, 714, 4999) == 227,
        mod_exp(3, 294, 4999) == 2420,
        mod_exp(2, 5500, 5501) == 1,
        mod_exp(2, 2750, 5501) == 5500,
        mod_exp(2, 1100, 5501) == 3901,
        mod_exp(2, 500, 5501) == 4772,
        mod_exp(2, 11002, 11003) == 1,
        mod_exp(2, 5501, 11003) == 11002,
        mod_exp(2, 2, 11003) == 4,
        mod_exp(3, 13326, 13327) == 1,
        mod_exp(3, 6663, 13327) == 13326,
        mod_exp(3, 4442, 13327) == 3142,
        mod_exp(3, 6, 13327) == 729,
        mod_exp(2, 20962, 20963) == 1,
        mod_exp(2, 10481, 20963) == 20962,
        mod_exp(2, 446, 20963) == 4773,
        mod_exp(2, 94, 20963) == 12288,
        mod_exp(5, 41926, 41927) == 1,
        mod_exp(5, 20963, 41927) == 41926,
        mod_exp(5, 2, 41927) == 25,
{
}

/// Powers of the generators of the primes from 93001 to 173171039, each to the
/// predecessor of its prime and to that predecessor divided by each of its
/// prime factors.
proof fn lemma_powers_sixth()
    by (bit_vector)
    ensures
        mod_exp(14, 93000, 93001) == 1,
        mod_exp(14, 46500, 93001) == 93000,
        mod_exp(14, 31000, 93001) == 22786,
        mod_exp(14, 18600, 93001) == 79997,
        mod_exp(14, 3000, 93001) == 61219,
        mod_exp(15, 237072, 237073) == 1,
        mod_exp(15, 118536, 237073) == 237072,
        mod_exp(15, 79024, 237073) == 63336,
        mod_exp(15, 21552, 237073) == 224235,
        mod_exp(15, 528, 237073) == 197030,
        mod_exp(19, 327598, 327599) == 1,
        mod_exp(19, 163799, 327599) == 327598,
        mod_exp(19, 17242, 327599) == 34768,
        mod_exp(19, 8854, 327599) == 283020,
        mod_exp(19, 1406, 327599) == 110252,
        mod_exp(2, 1593226, 1593227) == 1,
        mod_exp(2, 796613, 1593227) == 1593226,
        mod_exp(2, 83854, 1593227) == 836782,
        mod_exp(2, 38, 1593227) == 45861,
        mod_exp(17, 1853640, 1853641) == 1,
        mod_exp(17, 926820, 1853641) == 1853640,
        mod_exp(17, 617880, 1853641) == 536485,
        mod_exp(17, 370728, 1853641) == 1294646,
        mod_exp(17, 97560, 1853641) == 1800158,
        mod_exp(17, 6840, 1853641) == 763656,
        mod_exp(5, 4562086, 4562087) == 1,
        mod_exp(5, 2281043, 4562087) == 4562086,
        mod_exp(5, 268358, 4562087) == 476158,
        mod_exp(5, 41854, 4562087) == 2845343,
        mod_exp(5, 3706, 4562087) == 4407835,
        mod_exp(13, 173171038, 173171039) == 1,
        mod_exp(13, 86585519, 173171039) == 173171038,
        mod_exp(13, 2372206, 173171039) == 152195228,
        mod_exp(13, 1945742, 173171039) == 63003907,
        mod_exp(13, 12994, 173171039) == 102893123,
{
}

/// Powers of the generators of the primes from 405928799 to 5156902474397, each to the
/// predecessor of its prime and to that predecessor divided by each of its
/// prime factors.
proof fn lemma_powers_seventh()
    by (bit_vector)
    ensures
        mod_exp(22, 405928798, 405928799) == 1,
        mod_exp(22, 202964399, 405928799) == 405928798,
        mod_exp(22, 36902618, 405928799) == 215859951,
        mod_exp(22, 109978, 405928799) == 147917081,
        mod_exp(22, 81202, 405928799) == 61847818,
        mod_exp(2, 639533338, 639533339) == 1,
        mod_exp(2, 319766669, 639533339) == 639533338,
        mod_exp(2, 2792722, 639533339) == 271298491,
        mod_exp(2, 749746, 639533339) == 256057581,
        mod_exp(2, 390674, 639533339) == 248876995,
        mod_exp(10, 1263766530, 1263766531) == 1,
        mod_exp(10, 631883265, 1263766531) == 1263766530,
        mod_exp(10, 421255510, 1263766531) == 768732968,
        mod_exp(10, 252753306, 1263766531) == 736637955,
        mod_exp(10, 97212810, 1263766531) == 79716405,
        mod_exp(10, 1387230, 1263766531) == 125721785,
        mod_exp(10, 355290, 1263766531) == 938992354,
        mod_exp(3, 11465965000, 11465965001) == 1,
        mod_exp(3, 5732982500, 11465965001) == 11465965000,
        mod_exp(3, 2293193000, 11465965001) == 27926394,
        mod_exp(3, 1637995000, 11465965001) == 4573270631,
        mod_exp(3, 35000, 11465965001) == 7601491529,
        mod_exp(2, 12048837556, 12048837557) == 1,
        mod_exp(2, 6024418778, 12048837557) == 12048837556,
        mod_exp(2, 1721262508, 12048837557) == 41029474,
        mod_exp(2, 18228196, 12048837557) == 8877273464,
        mod_exp(2, 129556, 12048837557) == 4746995210,
        mod_exp(2, 35385462868, 35385462869) == 1,
        mod_exp(2, 17692731434, 35385462869) == 35385462868,
        mod_exp(2, 5055066124, 35385462869) == 10975929881,
        mod_exp(2, 28, 35385462869) == 268435456,
        mod_exp(2, 5156902474396, 5156902474397) == 1,
        mod_exp(2, 2578451237198, 5156902474397) == 5156902474396,
        mod_exp(2, 48195350228, 5156902474397) == 4827909776387,
        mod_exp(2, 428, 5156902474397) == 4746712836098,
{
}

/// Powers of the generators of the primes from 1670836401704629 to 13427688667394608761327070753331941386769, each to the
/// predecessor of its prime and to that predecessor divided by each of its
/// prime factors.
proof fn lemma_powers_eighth()
    by (bit_vector)
    ensures
        mod_exp(2, 1670836401704628, 1670836401704629) == 1,
        mod_exp(2, 835418200852314, 1670836401704629) == 1670836401704628,
        mod_exp(2, 556945467234876, 1670836401704629) == 1322408984917240,
        mod_exp(2, 324, 1670836401704629) == 11046204280772,
        mod_exp(6, 2480874801745590, 2480874801745591) == 1,
        mod_exp(6, 1240437400872795, 2480874801745591) == 2480874801745590,
        mod_exp(6, 826958267248530, 2480874801745591) == 2407620892277407,
        mod_exp(6, 496174960349118, 2480874801745591) == 1827406440318507,
        mod_exp(6, 130572357986610, 2480874801745591) == 1172307907851451,
        mod_exp(6, 60509141505990, 2480874801745591) == 2279967835349712,
        mod_exp(6, 70110, 2480874801745591) == 1811331258890614,
        mod_exp(5, 65865678001877902, 65865678001877903) == 1,
        mod_exp(5, 32932839000938951, 65865678001877903) == 65865678001877902,
        mod_exp(5, 793562385564794, 65865678001877903) == 46316002665751102,
        mod_exp(5, 173788068606538, 65865678001877903) == 43783936274874531,
        mod_exp(5, 40235600489846, 65865678001877903) == 56641079936670322,
        mod_exp(5, 102990218, 65865678001877903) == 18968088485270649,
        mod_exp(3, 13818364434197438864469338080int, 13818364434197438864469338081int) == 1,
        mod_exp(3, 6909182217098719432234669040int, 13818364434197438864469338081int) == 13818364434197438864469338080int,
        mod_exp(3, 2763672886839487772893867616int, 13818364434197438864469338081int) == 1236319344469036993987267104int,
        mod_exp(3, 16790236250543668122076960int, 13818364434197438864469338081int) == 570363171180057177517864248int,
        mod_exp(3, 8673192479287282267040int, 13818364434197438864469338081int) == 9233249052774251384923794665int,
        mod_exp(3, 209796131360, 13818364434197438864469338081int) == 11685553033882782147454259209int,
        mod_exp(17, 13427688667394608761327070753331941386768int, 13427688667394608761327070753331941386769int) == 1,
        mod_exp(17, 6713844333697304380663535376665970693384int, 13427688667394608761327070753331941386769int) == 13427688667394608761327070753331941386768int,
        mod_exp(17, 4475896222464869587109023584443980462256int, 13427688667394608761327070753331941386769int) == 2685568617321800533408078349748043375580int,
        mod_exp(17, 1918241238199229823046724393333134483824int, 13427688667394608761327070753331941386769int) == 3365167042067484594214394565332554156896int,
        mod_exp(17, 1220698969763146251029733704848358307888int, 13427688667394608761327070753331941386769int) == 3236340864352405644842122077993382124237int,
        mod_exp(17, 7243953207441251440449941899932048int, 13427688667394608761327070753331941386769int) == 2667543545659835767658605482012024096425int,
        mod_exp(17, 2943321481461140210900640595703664int, 13427688667394608761327070753331941386769int) == 4447233623349539365335128882050056364534int,
        mod_exp(17, 77540036399473290457806115913712int, 13427688667394608761327070753331941386769int) == 10302702663714691208296195508137108065110int,
        mod_exp(17, 5412481378724403979982448int, 13427688667394608761327070753331941386769int) == 10265023407933947886775309589286649233988int,
{
}

/// Powers of the generators of the primes from 21888242871839275222246405745257275088548364400416034343698204186575808495617 to 21888242871839275222246405745257275088696311157297823662689037894645226208583, each to the
/// predecessor of its prime and to that predecessor divided by each of its
/// prime factors.
proof fn lemma_powers_ninth()
    by (bit_vector)
    ensures
        mod_exp(5, 21888242871839275222246405745257275088548364400416034343698204186575808495616int, 21888242871839275222246405745257275088548364400416034343698204186575808495617int) == 1,
        mod_exp(5, 10944121435919637611123202872628637544274182200208017171849102093287904247808int, 21888242871839275222246405745257275088548364400416034343698204186575808495617int) == 21888242871839275222246405745257275088548364400416034343698204186575808495616int,
        mod_exp(5, 7296080957279758407415468581752425029516121466805344781232734728858602831872int, 21888242871839275222246405745257275088548364400416034343698204186575808495617int) == 4407920970296243842393367215006156084916469457145843978461int,
        mod_exp(5, 1683710990141482709403569672712098083734489569262771872592169552813523730432int, 21888242871839275222246405745257275088548364400416034343698204186575808495617int) == 20846111736645777009767703653665533493788639406277865704073555848150445038125int,
        mod_exp(5, 754766995580664662836082956733009485812012565531587391162007040916407189504int, 21888242871839275222246405745257275088548364400416034343698204186575808495617int) == 18357710930920482893114740859477755941065533295300174657912055312005893977631int,
        mod_exp(5, 22266778099531307448877320188461114027007491760341845720954429487869591552int, 21888242871839275222246405745257275088548364400416034343698204186575808495617int) == 16151937248511612831218790030381502136078900305644383989873770910345603053439int,
        mod_exp(5, 1989297725333025104266691424634851866631679033028813445760083994053967872int, 21888242871839275222246405745257275088548364400416034343698204186575808495617int) == 8299083658399422953216871473066571686783765754016288837524968026835148283600int,
        mod_exp(5, 92327016875980289709272695521030547926370208334209439049146061283131392int, 21888242871839275222246405745257275088548364400416034343698204186575808495617int) == 1135558486015409621676726807058439328573409521523979529600469708688064761941int,
        mod_exp(5, 53921384552563552462426805409431605981098090062873401459989056323584int, 21888242871839275222246405745257275088548364400416034343698204186575808495617int) == 19321818016159037061311250724021617607548090886696614157910334987366532500238int,
        mod_exp(5, 13100171177446423556613374118717413492986637444144570673659904int, 21888242871839275222246405745257275088548364400416034343698204186575808495617int) == 19643034808648967981397807206080768497060516784825884862247505212574391305991int,
        mod_exp(5, 1583996642733683218748855262055434666238317428736int, 21888242871839275222246405745257275088548364400416034343698204186575808495617int) == 7740382856488830440021062471495669005558519249383073335662966997885018076746int,
        mod_exp(3, 21888242871839275222246405745257275088696311157297823662689037894645226208582int, 21888242871839275222246405745257275088696311157297823662689037894645226208583int) == 1,
        mod_exp(3, 10944121435919637611123202872628637544348155578648911831344518947322613104291int, 21888242871839275222246405745257275088696311157297823662689037894645226208583int) == 21888242871839275222246405745257275088696311157297823662689037894645226208582int,
        mod_exp(3, 7296080957279758407415468581752425029565437052432607887563012631548408736194int, 21888242871839275222246405745257275088696311157297823662689037894645226208583int) == 21888242871839275220042445260109153167277707414472061641714758635765020556616int,
        mod_exp(3, 1683710990141482709403569672712098083745870089022909512514541376511171246814int, 21888242871839275222246405745257275088696311157297823662689037894645226208583int) == 19285204852924686474994479317461708819641446017783043034637969515423763351953int,
        mod_exp(3, 754766995580664662836082956733009485817114177837855988368587513608456076158int, 21888242871839275222246405745257275088696311157297823662689037894645226208583int) == 19433260757112203149040899379563167323735763231524821801948606396997821674113int,
        mod_exp(3, 326690192117004107794722473809810075950691211302952591980433401412615316546int, 21888242871839275222246405745257275088696311157297823662689037894645226208583int) == 21416043524944433016670818817864259343946572146370358017997215485720702071283int,
        mod_exp(3, 95581846601918232411556356966188974186446773612654251802135536657839415758int, 21888242871839275222246405745257275088696311157297823662689037894645226208583int) == 10247490365858481317912223827250247247828105120952384175173060052493082761774int,
        mod_exp(3, 70380202160254904251596159952595739835036370280700397629225202233585936362int, 21888242871839275222246405745257275088696311157297823662689037894645226208583int) == 4896153894909549175696450898459562220401524575804930873880135265551520772785int,
        mod_exp(3, 22266778099531307448877320188461114027157997108136138008839306098316608554int, 21888242871839275222246405745257275088696311157297823662689037894645226208583int) == 16688597666022887646690163467638290937986941906618104641626128998084292531986int,
        mod_exp(3, 1989297725333025104266691424634851866645125071098593443850680532095358194int, 21888242871839275222246405745257275088696311157297823662689037894645226208583int) == 6812761850782926297230824150434286700974771477980891240950366507765396668150int,
        mod_exp(3, 53921384552563552462426805409431605981462554858784049127514694749818int, 21888242871839275222246405745257275088696311157297823662689037894645226208583int) == 4037977894466302416077673003712391021526016837688049215215365469034689108930int,
        mod_exp(3, 1908975203563790751034266631218829680491566255156566185884264578582int, 21888242871839275222246405745257275088696311157297823662689037894645226208583int) == 5730636994510773491206367835236806183028292339446643256980404715002489681200int,
        mod_exp(3, 1630082690626329392154177744477557478int, 21888242871839275222246405745257275088696311157297823662689037894645226208583int) == 3079850386165776373304302593529140662833478451685277064343379560295587684005int,
{
}

/// 3 is prime: 2 generates its units; its predecessor is
/// 2.
proof fn lemma_prime_3()
    ensures
        is_field_modulus(3),
{
    lemma_field_modulus_two();
    lemma_powers_first();
    lemma_mod_exp(2, 2, 3);
    lemma_mod_exp(2, 1, 3);
    lemma_no_early_unit_start(3, 2, 2);
    lemma_no_early_unit_extend(3, 2, 1, 2, 1, 1);
    lemma_full_order_generates(3, 2);
    lemma_generator_implies_field(2, 3);
}

/// 5 is prime: 2 generates its units; its predecessor is
/// 2^2.
proof fn lemma_prime_5()
    ensures
        is_field_modulus(5),
{
    lemma_field_modulus_two();
    lemma_powers_first();
    lemma_mod_exp(2, 4, 5);
    lemma_mod_exp(2, 2, 5);
    lemma_no_early_unit_start(5, 2, 4);
    lemma_no_early_unit_extend(5, 2, 1, 2, 2, 2);
    lemma_no_early_unit_extend(5, 2, 2, 2, 1, 2);
    lemma_full_order_generates(5, 2);
    lemma_generator_implies_field(2, 5);
}

/// 7 is prime: 3 generates its units; its predecessor is
/// 2 * 3.
proof fn lemma_prime_7()
    ensures
        is_field_modulus(7),
{
    lemma_field_modulus_two();
    lemma_prime_3();
    lemma_powers_first();
    lemma_mod_exp(3, 6, 7);
    lemma_mod_exp(3, 3, 7);
    lemma_mod_exp(3, 2, 7);
    lemma_no_early_unit_start(7, 3, 6);
    lemma_no_early_unit_extend(7, 3, 1, 2, 3, 3);
    lemma_no_early_unit_extend(7, 3, 2, 3, 1, 2);
    lemma_full_order_generates(7, 3);
    lemma_generator_implies_field(3, 7);
}

/// 11 is prime: 2 generates its units; its predecessor is
/// 2 * 5.
proof fn lemma_prime_11()
    ensures
        is_field_modulus(11),
{
    lemma_field_modulus_two();
    lemma_prime_5();
    lemma_powers_first();
    lemma_mod_exp(2, 10, 11);
    lemma_mod_exp(2, 5, 11);
    lemma_mod_exp(2, 2, 11);
    lemma_no_early_unit_start(11, 2, 10);
    lemma_no_early_unit_extend(11, 2, 1, 2, 5, 5);
    lemma_no_early_unit_extend(11, 2, 2, 5, 1, 2);
    lemma_full_order_generates(11, 2);
    lemma_generator_implies_field(2, 11);
}

/// 13 is prime: 2 generates its units; its predecessor is
/// 2^2 * 3.
proof fn lemma_prime_13()
    ensures
        is_field_modulus(13),
{
    lemma_field_modulus_two();
    lemma_prime_3();
    lemma_powers_first();
    lemma_mod_exp(2, 12, 13);
    lemma_mod_exp(2, 6, 13);
    lemma_mod_exp(2, 4, 13);
    lemma_no_early_unit_start(13, 2, 12);
    lemma_no_early_unit_extend(13, 2, 1, 2, 6, 6);
    lemma_no_early_unit_extend(13, 2, 2, 2, 3, 6);
    lemma_no_early_unit_extend(13, 2, 4, 3, 1, 4);
    lemma_full_order_generates(13, 2);
    lemma_generator_implies_field(2, 13);
}

/// 17 is prime: 3 generates its units; its predecessor is
/// 2^4.
proof fn lemma_prime_17()
    ensures
        is_field_modulus(17),
{
    lemma_field_modulus_two();
    lemma_powers_first();
    lemma_mod_exp(3, 16, 17);
    lemma_mod_exp(3, 8, 17);
    lemma_no_early_unit_start(17, 3, 16);
    lemma_no_early_unit_extend(17, 3, 1, 2, 8, 8);
    lemma_no_early_unit_extend(17, 3, 2, 2, 4, 8);
    lemma_no_early_unit_extend(17, 3, 4, 2, 2, 8);
    lemma_no_early_unit_extend(17, 3, 8, 2, 1, 8);
    lemma_full_order_generates(17, 3);
    lemma_generator_implies_field(3, 17);
}

/// 19 is prime: 2 generates its units; its predecessor is
/// 2 * 3^2.
proof fn lemma_prime_19()
    ensures
        is_field_modulus(19),
{
    lemma_field_modulus_two();
    lemma_prime_3();
    lemma_powers_first();
    lemma_mod_exp(2, 18, 19);
    lemma_mod_exp(2, 9, 19);
    lemma_mod_exp(2, 6, 19);
    lemma_no_early_unit_start(19, 2, 18);
    lemma_no_early_unit_extend(19, 2, 1, 2, 9, 9);
    lemma_no_early_unit_extend(19, 2, 2, 3, 3, 6);
    lemma_no_early_unit_extend(19, 2, 6, 3, 1, 6);
    lemma_full_order_generates(19, 2);
    lemma_generator_implies_field(2, 19);
}

/// 23 is prime: 5 generates its units; its predecessor is
/// 2 * 11.
proof fn lemma_prime_23()
    ensures
        is_field_modulus(23),
{
    lemma_field_modulus_two();
    lemma_prime_11();
    lemma_powers_first();
    lemma_mod_exp(5, 22, 23);
    lemma_mod_exp(5, 11, 23);
    lemma_mod_exp(5, 2, 23);
    lemma_no_early_unit_start(23, 5, 22);
    lemma_no_early_unit_extend(23, 5, 1, 2, 11, 11);
    lemma_no_early_unit_extend(23, 5, 2, 11, 1, 2);
    lemma_full_order_generates(23, 5);
    lemma_generator_implies_field(5, 23);
}

/// 29 is prime: 2 generates its units; its predecessor is
/// 2^2 * 7.
proof fn lemma_prime_29()
    ensures
        is_field_modulus(29),
{
    lemma_field_modulus_two();
    lemma_prime_7();
    lemma_powers_first();
    lemma_mod_exp(2, 28, 29);
    lemma_mod_exp(2, 14, 29);
    lemma_mod_exp(2, 4, 29);
    lemma_no_early_unit_start(29, 2, 28);
    lemma_no_early_unit_extend(29, 2, 1, 2, 14, 14);
    lemma_no_early_unit_extend(29, 2, 2, 2, 7, 14);
    lemma_no_early_unit_extend(29, 2, 4, 7, 1, 4);
    lemma_full_order_generates(29, 2);
    lemma_generator_implies_field(2, 29);
}

/// 31 is prime: 3 generates its units; its predecessor is
/// 2 * 3 * 5.
proof fn lemma_prime_31()
    ensures
        is_field_modulus(31),
{
    lemma_field_modulus_two();
    lemma_prime_3();
    lemma_prime_5();
    lemma_powers_first();
    lemma_mod_exp(3, 30, 31);
    lemma_mod_exp(3, 15, 31);
    lemma_mod_exp(3, 10, 31);
    lemma_mod_exp(3, 6, 31);
    lemma_no_early_unit_start(31, 3, 30);
    lemma_no_early_unit_extend(31, 3, 1, 2, 15, 15);
    lemma_no_early_unit_extend(31, 3, 2, 3, 5, 10);
    lemma_no_early_unit_extend(31, 3, 6, 5, 1, 6);
    lemma_full_order_generates(31, 3);
    lemma_generator_implies_field(3, 31);
}

/// 37 is prime: 2 generates its units; its predecessor is
/// 2^2 * 3^2.
proof fn lemma_prime_37()
    ensures
        is_field_modulus(37),
{
    lemma_field_modulus_two();
    lemma_prime_3();
    lemma_powers_first();
    lemma_mod_exp(2, 36, 37);
    lemma_mod_exp(2, 18, 37);
    lemma_mod_exp(2, 12, 37);
    lemma_no_early_unit_start(37, 2, 36);
    lemma_no_early_unit_extend(37, 2, 1, 2, 18, 18);
    lemma_no_early_unit_extend(37, 2, 2, 2, 9, 18);
    lemma_no_early_unit_extend(37, 2, 4, 3, 3, 12);
    lemma_no_early_unit_extend(37, 2, 12, 3, 1, 12);
    lemma_full_order_generates(37, 2);
    lemma_generator_implies_field(2, 37);
}

/// 41 is prime: 6 generates its units; its predecessor is
/// 2^3 * 5.
proof fn lemma_prime_41()
    ensures
        is_field_modulus(41),
{
    lemma_field_modulus_two();
    lemma_prime_5();
    lemma_powers_first();
    lemma_mod_exp(6, 40, 41);
    lemma_mod_exp(6, 20, 41);
    lemma_mod_exp(6, 8, 41);
    lemma_no_early_unit_start(41, 6, 40);
    lemma_no_early_unit_extend(41, 6, 1, 2, 20, 20);
    lemma_no_early_unit_extend(41, 6, 2, 2, 10, 20);
    lemma_no_early_unit_extend(41, 6, 4, 2, 5, 20);
    lemma_no_early_unit_extend(41, 6, 8, 5, 1, 8);
    lemma_full_order_generates(41, 6);
    lemma_generator_implies_field(6, 41);
}

/// 47 is prime: 5 generates its units; its predecessor is
/// 2 * 23.
proof fn lemma_prime_47()
    ensures
        is_field_modulus(47),
{
    lemma_field_modulus_two();
    lemma_prime_23();
    lemma_powers_second();
    lemma_mod_exp(5, 46, 47);
    lemma_mod_exp(5, 23, 47);
    lemma_mod_exp(5, 2, 47);
    lemma_no_early_unit_start(47, 5, 46);
    lemma_no_early_unit_extend(47, 5, 1, 2, 23, 23);
    lemma_no_early_unit_extend(47, 5, 2, 23, 1, 2);
    lemma_full_order_generates(47, 5);
    lemma_generator_implies_field(5, 47);
}

/// 53 is prime: 2 generates its units; its predecessor is
/// 2^2 * 13.
proof fn lemma_prime_53()
    ensures
        is_field_modulus(53),
{
    lemma_field_modulus_two();
    lemma_prime_13();
    lemma_powers_second();
    lemma_mod_exp(2, 52, 53);
    lemma_mod_exp(2, 26, 53);
    lemma_mod_exp(2, 4, 53);
    lemma_no_early_unit_start(53, 2, 52);
    lemma_no_early_unit_extend(53, 2, 1, 2, 26, 26);
    lemma_no_early_unit_extend(53, 2, 2, 2, 13, 26);
    lemma_no_early_unit_extend(53, 2, 4, 13, 1, 4);
    lemma_full_order_generates(53, 2);
    lemma_generator_implies_field(2, 53);
}

/// 67 is prime: 2 generates its units; its predecessor is
/// 2 * 3 * 11.
proof fn lemma_prime_67()
    ensures
        is_field_modulus(67),
{
    lemma_field_modulus_two();
    lemma_prime_3();
    lemma_prime_11();
    lemma_powers_second();
    lemma_mod_exp(2, 66, 67);
    lemma_mod_exp(2, 33, 67);
    lemma_mod_exp(2, 22, 67);
    lemma_mod_exp(2, 6, 67);
    lemma_no_early_unit_start(67, 2, 66);
    lemma_no_early_unit_extend(67, 2, 1, 2, 33, 33);
    lemma_no_early_unit_extend(67, 2, 2, 3, 11, 22);
    lemma_no_early_unit_extend(67, 2, 6, 11, 1, 6);
    lemma_full_order_generates(67, 2);
    lemma_generator_implies_field(2, 67);
}

/// 71 is prime: 7 generates its units; its predecessor is
/// 2 * 5 * 7.
proof fn lemma_prime_71()
    ensures
        is_field_modulus(71),
{
    lemma_field_modulus_two();
    lemma_prime_5();
    lemma_prime_7();
    lemma_powers_second();
    lemma_mod_exp(7, 70, 71);
    lemma_mod_exp(7, 35, 71);
    lemma_mod_exp(7, 14, 71);
    lemma_mod_exp(7, 10, 71);
    lemma_no_early_unit_start(71, 7, 70);
    lemma_no_early_unit_extend(71, 7, 1, 2, 35, 35);
    lemma_no_early_unit_extend(71, 7, 2, 5, 7, 14);
    lemma_no_early_unit_extend(71, 7, 10, 7, 1, 10);
    lemma_full_order_generates(71, 7);
    lemma_generator_implies_field(7, 71);
}

/// 73 is prime: 5 generates its units; its predecessor is
/// 2^3 * 3^2.
proof fn lemma_prime_73()
    ensures
        is_field_modulus(73),
{
    lemma_field_modulus_two();
    lemma_prime_3();
    lemma_powers_second();
    lemma_mod_exp(5, 72, 73);
    lemma_mod_exp(5, 36, 73);
    lemma_mod_exp(5, 24, 73);
    lemma_no_early_unit_start(73, 5, 72);
    lemma_no_early_unit_extend(73, 5, 1, 2, 36, 36);
    lemma_no_early_unit_extend(73, 5, 2, 2, 18, 36);
    lemma_no_early_unit_extend(73, 5, 4, 2, 9, 36);
    lemma_no_early_unit_extend(73, 5, 8, 3, 3, 24);
    lemma_no_early_unit_extend(73, 5, 24, 3, 1, 24);
    lemma_full_order_generates(73, 5);
    lemma_generator_implies_field(5, 73);
}

/// 83 is prime: 2 generates its units; its predecessor is
/// 2 * 41.
proof fn lemma_prime_83()
    ensures
        is_field_modulus(83),
{
    lemma_field_modulus_two();
    lemma_prime_41();
    lemma_powers_second();
    lemma_mod_exp(2, 82, 83);
    lemma_mod_exp(2, 41, 83);
    lemma_mod_exp(2, 2, 83);
    lemma_no_early_unit_start(83, 2, 82);
    lemma_no_early_unit_extend(83, 2, 1, 2, 41, 41);
    lemma_no_early_unit_extend(83, 2, 2, 41, 1, 2);
    lemma_full_order_generates(83, 2);
    lemma_generator_implies_field(2, 83);
}

/// 89 is prime: 3 generates its units; its predecessor is
/// 2^3 * 11.
proof fn lemma_prime_89()
    ensures
        is_field_modulus(89),
{
    lemma_field_modulus_two();
    lemma_prime_11();
    lemma_powers_second();
    lemma_mod_exp(3, 88, 89);
    lemma_mod_exp(3, 44, 89);
    lemma_mod_exp(3, 8, 89);
    lemma_no_early_unit_start(89, 3, 88);
    lemma_no_early_unit_extend(89, 3, 1, 2, 44, 44);
    lemma_no_early_unit_extend(89, 3, 2, 2, 22, 44);
    lemma_no_early_unit_extend(89, 3, 4, 2, 11, 44);
    lemma_no_early_unit_extend(89, 3, 8, 11, 1, 8);
    lemma_full_order_generates(89, 3);
    lemma_generator_implies_field(3, 89);
}

/// 107 is prime: 2 generates its units; its predecessor is
/// 2 * 53.
proof fn lemma_prime_107()
    ensures
        is_field_modulus(107),
{
    lemma_field_modulus_two();
    lemma_prime_53();
    lemma_powers_second();
    lemma_mod_exp(2, 106, 107);
    lemma_mod_exp(2, 53, 107);
    lemma_mod_exp(2, 2, 107);
    lemma_no_early_unit_start(107, 2, 106);
    lemma_no_early_unit_extend(107, 2, 1, 2, 53, 53);
    lemma_no_early_unit_extend(107, 2, 2, 53, 1, 2);
    lemma_full_order_generates(107, 2);
    lemma_generator_implies_field(2, 107);
}

/// 109 is prime: 6 generates its units; its predecessor is
/// 2^2 * 3^3.
proof fn lemma_prime_109()
    ensures
        is_field_modulus(109),
{
    lemma_field_modulus_two();
    lemma_prime_3();
    lemma_powers_second();
    lemma_mod_exp(6, 108, 109);
    lemma_mod_exp(6, 54, 109);
    lemma_mod_exp(6, 36, 109);
    lemma_no_early_unit_start(109, 6, 108);
    lemma_no_early_unit_extend(109, 6, 1, 2, 54, 54);
    lemma_no_early_unit_extend(109, 6, 2, 2, 27, 54);
    lemma_no_early_unit_extend(109, 6, 4, 3, 9, 36);
    lemma_no_early_unit_extend(109, 6, 12, 3, 3, 36);
    lemma_no_early_unit_extend(109, 6, 36, 3, 1, 36);
    lemma_full_order_generates(109, 6);
    lemma_generator_implies_field(6, 109);
}

/// 127 is prime: 3 generates its units; its predecessor is
/// 2 * 3^2 * 7.
proof fn lemma_prime_127()
    ensures
        is_field_modulus(127),
{
    lemma_field_modulus_two();
    lemma_prime_3();
    lemma_prime_7();
    lemma_powers_second();
    lemma_mod_exp(3, 126, 127);
    lemma_mod_exp(3, 63, 127);
    lemma_mod_exp(3, 42, 127);
    lemma_mod_exp(3, 18, 127);
    lemma_no_early_unit_start(127, 3, 126);
    lemma_no_early_unit_extend(127, 3, 1, 2, 63, 63);
    lemma_no_early_unit_extend(127, 3, 2, 3, 21, 42);
    lemma_no_early_unit_extend(127, 3, 6, 3, 7, 42);
    lemma_no_early_unit_extend(127, 3, 18, 7, 1, 18);
    lemma_full_order_generates(127, 3);
    lemma_generator_implies_field(3, 127);
}

/// 137 is prime: 3 generates its units; its predecessor is
/// 2^3 * 17.
proof fn lemma_prime_137()
    ensures
        is_field_modulus(137),
{
    lemma_field_modulus_two();
    lemma_prime_17();
    lemma_powers_second();
    lemma_mod_exp(3, 136, 137);
    lemma_mod_exp(3, 68, 137);
    lemma_mod_exp(3, 8, 137);
    lemma_no_early_unit_start(137, 3, 136);
    lemma_no_early_unit_extend(137, 3, 1, 2, 68, 68);
    lemma_no_early_unit_extend(137, 3, 2, 2, 34, 68);
    lemma_no_early_unit_extend(137, 3, 4, 2, 17, 68);
    lemma_no_early_unit_extend(137, 3, 8, 17, 1, 8);
    lemma_full_order_generates(137, 3);
    lemma_generator_implies_field(3, 137);
}

/// 223 is prime: 3 generates its units; its predecessor is
/// 2 * 3 * 37.
proof fn lemma_prime_223()
    ensures
        is_field_modulus(223),
{
    lemma_field_modulus_two();
    lemma_prime_3();
    lemma_prime_37();
    lemma_powers_third();
    lemma_mod_exp(3, 222, 223);
    lemma_mod_exp(3, 111, 223);
    lemma_mod_exp(3, 74, 223);
    lemma_mod_exp(3, 6, 223);
    lemma_no_early_unit_start(223, 3, 222);
    lemma_no_early_unit_extend(223, 3, 1, 2, 111, 111);
    lemma_no_early_unit_extend(223, 3, 2, 3, 37, 74);
    lemma_no_early_unit_extend(223, 3, 6, 37, 1, 6);
    lemma_full_order_generates(223, 3);
    lemma_generator_implies_field(3, 223);
}

/// 229 is prime: 6 generates its units; its predecessor is
/// 2^2 * 3 * 19.
proof fn lemma_prime_229()
    ensures
        is_field_modulus(229),
{
    lemma_field_modulus_two();
    lemma_prime_3();
    lemma_prime_19();
    lemma_powers_third();
    lemma_mod_exp(6, 228, 229);
    lemma_mod_exp(6, 114, 229);
    lemma_mod_exp(6, 76, 229);
    lemma_mod_exp(6, 12, 229);
    lemma_no_early_unit_start(229, 6, 228);
    lemma_no_early_unit_extend(229, 6, 1, 2, 114, 114);
    lemma_no_early_unit_extend(229, 6, 2, 2, 57, 114);
    lemma_no_early_unit_extend(229, 6, 4, 3, 19, 76);
    lemma_no_early_unit_extend(229, 6, 12, 19, 1, 12);
    lemma_full_order_generates(229, 6);
    lemma_generator_implies_field(6, 229);
}

/// 233 is prime: 3 generates its units; its predecessor is
/// 2^3 * 29.
proof fn lemma_prime_233()
    ensures
        is_field_modulus(233),
{
    lemma_field_modulus_two();
    lemma_prime_29();
    lemma_powers_third();
    lemma_mod_exp(3, 232, 233);
    lemma_mod_exp(3, 116, 233);
    lemma_mod_exp(3, 8, 233);
    lemma_no_early_unit_start(233, 3, 232);
    lemma_no_early_unit_extend(233, 3, 1, 2, 116, 116);
    lemma_no_early_unit_extend(233, 3, 2, 2, 58, 116);
    lemma_no_early_unit_extend(233, 3, 4, 2, 29, 116);
    lemma_no_early_unit_extend(233, 3, 8, 29, 1, 8);
    lemma_full_order_generates(233, 3);
    lemma_generator_implies_field(3, 233);
}

/// 271 is prime: 6 generates its units; its predecessor is
/// 2 * 3^3 * 5.
proof fn lemma_prime_271()
    ensures
        is_field_modulus(271),
{
    lemma_field_modulus_two();
    lemma_prime_3();
    lemma_prime_5();
    lemma_powers_third();
    lemma_mod_exp(6, 270, 271);
    lemma_mod_exp(6, 135, 271);
    lemma_mod_exp(6, 90, 271);
    lemma_mod_exp(6, 54, 271);
    lemma_no_early_unit_start(271, 6, 270);
    lemma_no_early_unit_extend(271, 6, 1, 2, 135, 135);
    lemma_no_early_unit_extend(271, 6, 2, 3, 45, 90);
    lemma_no_early_unit_extend(271, 6, 6, 3, 15, 90);
    lemma_no_early_unit_extend(271, 6, 18, 3, 5, 90);
    lemma_no_early_unit_extend(271, 6, 54, 5, 1, 54);
    lemma_full_order_generates(271, 6);
    lemma_generator_implies_field(6, 271);
}

/// 311 is prime: 17 generates its units; its predecessor is
/// 2 * 5 * 31.
proof fn lemma_prime_311()
    ensures
        is_field_modulus(311),
{
    lemma_field_modulus_two();
    lemma_prime_5();
    lemma_prime_31();
    lemma_powers_third();
    lemma_mod_exp(17, 310, 311);
    lemma_mod_exp(17, 155, 311);
    lemma_mod_exp(17, 62, 311);
    lemma_mod_exp(17, 10, 311);
    lemma_no_early_unit_start(311, 17, 310);
    lemma_no_early_unit_extend(311, 17, 1, 2, 155, 155);
    lemma_no_early_unit_extend(311, 17, 2, 5, 31, 62);
    lemma_no_early_unit_extend(311, 17, 10, 31, 1, 10);
    lemma_full_order_generates(311, 17);
    lemma_generator_implies_field(17, 311);
}

/// 379 is prime: 2 generates its units; its predecessor is
/// 2 * 3^3 * 7.
proof fn lemma_prime_379()
    ensures
        is_field_modulus(379),
{
    lemma_field_modulus_two();
    lemma_prime_3();
    lemma_prime_7();
    lemma_powers_third();
    lemma_mod_exp(2, 378, 379);
    lemma_mod_exp(2, 189, 379);
    lemma_mod_exp(2, 126, 379);
    lemma_mod_exp(2, 54, 379);
    lemma_no_early_unit_start(379, 2, 378);
    lemma_no_early_unit_extend(379, 2, 1, 2, 189, 189);
    lemma_no_early_unit_extend(379, 2, 2, 3, 63, 126);
    lemma_no_early_unit_extend(379, 2, 6, 3, 21, 126);
    lemma_no_early_unit_extend(379, 2, 18, 3, 7, 126);
    lemma_no_early_unit_extend(379, 2, 54, 7, 1, 54);
    lemma_full_order_generates(379, 2);
    lemma_generator_implies_field(2, 379);
}

/// 409 is prime: 21 generates its units; its predecessor is
/// 2^3 * 3 * 17.
proof fn lemma_prime_409()
    ensures
        is_field_modulus(409),
{
    lemma_field_modulus_two();
    lemma_prime_3();
    lemma_prime_17();
    lemma_powers_third();
    lemma_mod_exp(21, 408, 409);
    lemma_mod_exp(21, 204, 409);
    lemma_mod_exp(21, 136, 409);
    lemma_mod_exp(21, 24, 409);
    lemma_no_early_unit_start(409, 21, 408);
    lemma_no_early_unit_extend(409, 21, 1, 2, 204, 204);
    lemma_no_early_unit_extend(409, 21, 2, 2, 102, 204);
    lemma_no_early_unit_extend(409, 21, 4, 2, 51, 204);
    lemma_no_early_unit_extend(409, 21, 8, 3, 17, 136);
    lemma_no_early_unit_extend(409, 21, 24, 17, 1, 24);
    lemma_full_order_generates(409, 21);
    lemma_generator_implies_field(21, 409);
}

/// 449 is prime: 3 generates its units; its predecessor is
/// 2^6 * 7.
proof fn lemma_prime_449()
    ensures
        is_field_modulus(449),
{
    lemma_field_modulus_two();
    lemma_prime_7();
    lemma_powers_third();
    lemma_mod_exp(3, 448, 449);
    lemma_mod_exp(3, 224, 449);
    lemma_mod_exp(3, 64, 449);
    lemma_no_early_unit_start(449, 3, 448);
    lemma_no_early_unit_extend(449, 3, 1, 2, 224, 224);
    lemma_no_early_unit_extend(449, 3, 2, 2, 112, 224);
    lemma_no_early_unit_extend(449, 3, 4, 2, 56, 224);
    lemma_no_early_unit_extend(449, 3, 8, 2, 28, 224);
    lemma_no_early_unit_extend(449, 3, 16, 2, 14, 224);
    lemma_no_early_unit_extend(449, 3, 32, 2, 7, 224);
    lemma_no_early_unit_extend(449, 3, 64, 7, 1, 64);
    lemma_full_order_generates(449, 3);
    lemma_generator_implies_field(3, 449);
}

/// 491 is prime: 2 generates its units; its predecessor is
/// 2 * 5 * 7^2.
proof fn lemma_prime_491()
    ensures
        is_field_modulus(491),
{
    lemma_field_modulus_two();
    lemma_prime_5();
    lemma_prime_7();
    lemma_powers_third();
    lemma_mod_exp(2, 490, 491);
    lemma_mod_exp(2, 245, 491);
    lemma_mod_exp(2, 98, 491);
    lemma_mod_exp(2, 70, 491);
    lemma_no_early_unit_start(491, 2, 490);
    lemma_no_early_unit_extend(491, 2, 1, 2, 245, 245);
    lemma_no_early_unit_extend(491, 2, 2, 5, 49, 98);
    lemma_no_early_unit_extend(491, 2, 10, 7, 7, 70);
    lemma_no_early_unit_extend(491, 2, 70, 7, 1, 70);
    lemma_full_order_generates(491, 2);
    lemma_generator_implies_field(2, 491);
}

/// 661 is prime: 2 generates its units; its predecessor is
/// 2^2 * 3 * 5 * 11.
proof fn lemma_prime_661()
    ensures
        is_field_modulus(661),
{
    lemma_field_modulus_two();
    lemma_prime_3();
    lemma_prime_5();
    lemma_prime_11();
    lemma_powers_fourth();
    lemma_mod_exp(2, 660, 661);
    lemma_mod_exp(2, 330, 661);
    lemma_mod_exp(2, 220, 661);
    lemma_mod_exp(2, 132, 661);
    lemma_mod_exp(2, 60, 661);
    lemma_no_early_unit_start(661, 2, 660);
    lemma_no_early_unit_extend(661, 2, 1, 2, 330, 330);
    lemma_no_early_unit_extend(661, 2, 2, 2, 165, 330);
    lemma_no_early_unit_extend(661, 2, 4, 3, 55, 220);
    lemma_no_early_unit_extend(661, 2, 12, 5, 11, 132);
    lemma_no_early_unit_extend(661, 2, 60, 11, 1, 60);
    lemma_full_order_generates(661, 2);
    lemma_generator_implies_field(2, 661);
}

/// 823 is prime: 3 generates its units; its predecessor is
/// 2 * 3 * 137.
proof fn lemma_prime_823()
    ensures
        is_field_modulus(823),
{
    lemma_field_modulus_two();
    lemma_prime_3();
    lemma_prime_137();
    lemma_powers_fourth();
    lemma_mod_exp(3, 822, 823);
    lemma_mod_exp(3, 411, 823);
    lemma_mod_exp(3, 274, 823);
    lemma_mod_exp(3, 6, 823);
    lemma_no_early_unit_start(823, 3, 822);
    lemma_no_early_unit_extend(823, 3, 1, 2, 411, 411);
    lemma_no_early_unit_extend(823, 3, 2, 3, 137, 274);
    lemma_no_early_unit_extend(823, 3, 6, 137, 1, 6);
    lemma_full_order_generates(823, 3);
    lemma_generator_implies_field(3, 823);
}

/// 853 is prime: 2 generates its units; its predecessor is
/// 2^2 * 3 * 71.
proof fn lemma_prime_853()
    ensures
        is_field_modulus(853),
{
    lemma_field_modulus_two();
    lemma_prime_3();
    lemma_prime_71();
    lemma_powers_fourth();
    lemma_mod_exp(2, 852, 853);
    lemma_mod_exp(2, 426, 853);
    lemma_mod_exp(2, 284, 853);
    lemma_mod_exp(2, 12, 853);
    lemma_no_early_unit_start(853, 2, 852);
    lemma_no_early_unit_extend(853, 2, 1, 2, 426, 426);
    lemma_no_early_unit_extend(853, 2, 2, 2, 213, 426);
    lemma_no_early_unit_extend(853, 2, 4, 3, 71, 284);
    lemma_no_early_unit_extend(853, 2, 12, 71, 1, 12);
    lemma_full_order_generates(853, 2);
    lemma_generator_implies_field(2, 853);
}

/// 911 is prime: 17 generates its units; its predecessor is
/// 2 * 5 * 7 * 13.
proof fn lemma_prime_911()
    ensures
        is_field_modulus(911),
{
    lemma_field_modulus_two();
    lemma_prime_5();
    lemma_prime_7();
    lemma_prime_13();
    lemma_powers_fourth();
    lemma_mod_exp(17, 910, 911);
    lemma_mod_exp(17, 455, 911);
    lemma_mod_exp(17, 182, 911);
    lemma_mod_exp(17, 130, 911);
    lemma_mod_exp(17, 70, 911);
    lemma_no_early_unit_start(911, 17, 910);
    lemma_no_early_unit_extend(911, 17, 1, 2, 455, 455);
    lemma_no_early_unit_extend(911, 17, 2, 5, 91, 182);
    lemma_no_early_unit_extend(911, 17, 10, 7, 13, 130);
    lemma_no_early_unit_extend(911, 17, 70, 13, 1, 70);
    lemma_full_order_generates(911, 17);
    lemma_generator_implies_field(17, 911);
}

/// 983 is prime: 5 generates its units; its predecessor is
/// 2 * 491.
proof fn lemma_prime_983()
    ensures
        is_field_modulus(983),
{
    lemma_field_modulus_two();
    lemma_prime_491();
    lemma_powers_fourth();
    lemma_mod_exp(5, 982, 983);
    lemma_mod_exp(5, 491, 983);
    lemma_mod_exp(5, 2, 983);
    lemma_no_early_unit_start(983, 5, 982);
    lemma_no_early_unit_extend(983, 5, 1, 2, 491, 491);
    lemma_no_early_unit_extend(983, 5, 2, 491, 1, 2);
    lemma_full_order_generates(983, 5);
    lemma_generator_implies_field(5, 983);
}

/// 1231 is prime: 3 generates its units; its predecessor is
/// 2 * 3 * 5 * 41.
proof fn lemma_prime_1231()
    ensures
        is_field_modulus(1231),
{
    lemma_field_modulus_two();
    lemma_prime_3();
    lemma_prime_5();
    lemma_prime_41();
    lemma_powers_fourth();
    lemma_mod_exp(3, 1230, 1231);
    lemma_mod_exp(3, 615, 1231);
    lemma_mod_exp(3, 410, 1231);
    lemma_mod_exp(3, 246, 1231);
    lemma_mod_exp(3, 30, 1231);
    lemma_no_early_unit_start(1231, 3, 1230);
    lemma_no_early_unit_extend(1231, 3, 1, 2, 615, 615);
    lemma_no_early_unit_extend(1231, 3, 2, 3, 205, 410);
    lemma_no_early_unit_extend(1231, 3, 6, 5, 41, 246);
    lemma_no_early_unit_extend(1231, 3, 30, 41, 1, 30);
    lemma_full_order_generates(1231, 3);
    lemma_generator_implies_field(3, 1231);
}

/// 1637 is prime: 2 generates its units; its predecessor is
/// 2^2 * 409.
proof fn lemma_prime_1637()
    ensures
        is_field_modulus(1637),
{
    lemma_field_modulus_two();
    lemma_prime_409();
    lemma_powers_fourth();
    lemma_mod_exp(2, 1636, 1637);
    lemma_mod_exp(2, 818, 1637);
    lemma_mod_exp(2, 4, 1637);
    lemma_no_early_unit_start(1637, 2, 1636);
    lemma_no_early_unit_extend(1637, 2, 1, 2, 818, 818);
    lemma_no_early_unit_extend(1637, 2, 2, 2, 409, 818);
    lemma_no_early_unit_extend(1637, 2, 4, 409, 1, 4);
    lemma_full_order_generates(1637, 2);
    lemma_generator_implies_field(2, 1637);
}

/// 2221 is prime: 2 generates its units; its predecessor is
/// 2^2 * 3 * 5 * 37.
proof fn lemma_prime_2221()
    ensures
        is_field_modulus(2221),
{
    lemma_field_modulus_two();
    lemma_prime_3();
    lemma_prime_5();
    lemma_prime_37();
    lemma_powers_fourth();
    lemma_mod_exp(2, 2220, 2221);
    lemma_mod_exp(2, 1110, 2221);
    lemma_mod_exp(2, 740, 2221);
    lemma_mod_exp(2, 444, 2221);
    lemma_mod_exp(2, 60, 2221);
    lemma_no_early_unit_start(2221, 2, 2220);
    lemma_no_early_unit_extend(2221, 2, 1, 2, 1110, 1110);
    lemma_no_early_unit_extend(2221, 2, 2, 2, 555, 1110);
    lemma_no_early_unit_extend(2221, 2, 4, 3, 185, 740);
    lemma_no_early_unit_extend(2221, 2, 12, 5, 37, 444);
    lemma_no_early_unit_extend(2221, 2, 60, 37, 1, 60);
    lemma_full_order_generates(2221, 2);
    lemma_generator_implies_field(2, 2221);
}

/// 3557 is prime: 2 generates its units; its predecessor is
/// 2^2 * 7 * 127.
proof fn lemma_prime_3557()
    ensures
        is_field_modulus(3557),
{
    lemma_field_modulus_two();
    lemma_prime_7();
    lemma_prime_127();
    lemma_powers_fifth();
    lemma_mod_exp(2, 3556, 3557);
    lemma_mod_exp(2, 1778, 3557);
    lemma_mod_exp(2, 508, 3557);
    lemma_mod_exp(2, 28, 3557);
    lemma_no_early_unit_start(3557, 2, 3556);
    lemma_no_early_unit_extend(3557, 2, 1, 2, 1778, 1778);
    lemma_no_early_unit_extend(3557, 2, 2, 2, 889, 1778);
    lemma_no_early_unit_extend(3557, 2, 4, 7, 127, 508);
    lemma_no_early_unit_extend(3557, 2, 28, 127, 1, 28);
    lemma_full_order_generates(3557, 2);
    lemma_generator_implies_field(2, 3557);
}

/// 3691 is prime: 2 generates its units; its predecessor is
/// 2 * 3^2 * 5 * 41.
proof fn lemma_prime_3691()
    ensures
        is_field_modulus(3691),
{
    lemma_field_modulus_two();
    lemma_prime_3();
    lemma_prime_5();
    lemma_prime_41();
    lemma_powers_fifth();
    lemma_mod_exp(2, 3690, 3691);
    lemma_mod_exp(2, 1845, 3691);
    lemma_mod_exp(2, 1230, 3691);
    lemma_mod_exp(2, 738, 3691);
    lemma_mod_exp(2, 90, 3691);
    lemma_no_early_unit_start(3691, 2, 3690);
    lemma_no_early_unit_extend(3691, 2, 1, 2, 1845, 1845);
    lemma_no_early_unit_extend(3691, 2, 2, 3, 615, 1230);
    lemma_no_early_unit_extend(3691, 2, 6, 3, 205, 1230);
    lemma_no_early_unit_extend(3691, 2, 18, 5, 41, 738);
    lemma_no_early_unit_extend(3691, 2, 90, 41, 1, 90);
    lemma_full_order_generates(3691, 2);
    lemma_generator_implies_field(2, 3691);
}

/// 4999 is prime: 3 generates its units; its predecessor is
/// 2 * 3 * 7^2 * 17.
proof fn lemma_prime_4999()
    ensures
        is_field_modulus(4999),
{
    lemma_field_modulus_two();
    lemma_prime_3();
    lemma_prime_7();
    lemma_prime_17();
    lemma_powers_fifth();
    lemma_mod_exp(3, 4998, 4999);
    lemma_mod_exp(3, 2499, 4999);
    lemma_mod_exp(3, 1666, 4999);
    lemma_mod_exp(3, 714, 4999);
    lemma_mod_exp(3, 294, 4999);
    lemma_no_early_unit_start(4999, 3, 4998);
    lemma_no_early_unit_extend(4999, 3, 1, 2, 2499, 2499);
    lemma_no_early_unit_extend(4999, 3, 2, 3, 833, 1666);
    lemma_no_early_unit_extend(4999, 3, 6, 7, 119, 714);
    lemma_no_early_unit_extend(4999, 3, 42, 7, 17, 714);
    lemma_no_early_unit_extend(4999, 3, 294, 17, 1, 294);
    lemma_full_order_generates(4999, 3);
    lemma_generator_implies_field(3, 4999);
}

/// 5501 is prime: 2 generates its units; its predecessor is
/// 2^2 * 5^3 * 11.
proof fn lemma_prime_5501()
    ensures
        is_field_modulus(5501),
{
    lemma_field_modulus_two();
    lemma_prime_5();
    lemma_prime_11();
    lemma_powers_fifth();
    lemma_mod_exp(2, 5500, 5501);
    lemma_mod_exp(2, 2750, 5501);
    lemma_mod_exp(2, 1100, 5501);
    lemma_mod_exp(2, 500, 5501);
    lemma_no_early_unit_start(5501, 2, 5500);
    lemma_no_early_unit_extend(5501, 2, 1, 2, 2750, 2750);
    lemma_no_early_unit_extend(5501, 2, 2, 2, 1375, 2750);
    lemma_no_early_unit_extend(5501, 2, 4, 5, 275, 1100);
    lemma_no_early_unit_extend(5501, 2, 20, 5, 55, 1100);
    lemma_no_early_unit_extend(5501, 2, 100, 5, 11, 1100);
    lemma_no_early_unit_extend(5501, 2, 500, 11, 1, 500);
    lemma_full_order_generates(5501, 2);
    lemma_generator_implies_field(2, 5501);
}

/// 11003 is prime: 2 generates its units; its predecessor is
/// 2 * 5501.
proof fn lemma_prime_11003()
    ensures
        is_field_modulus(11003),
{
    lemma_field_modulus_two();
    lemma_prime_5501();
    lemma_powers_fifth();
    lemma_mod_exp(2, 11002, 11003);
    lemma_mod_exp(2, 5501, 11003);
    lemma_mod_exp(2, 2, 11003);
    lemma_no_early_unit_start(11003, 2, 11002);
    lemma_no_early_unit_extend(11003, 2, 1, 2, 5501, 5501);
    lemma_no_early_unit_extend(11003, 2, 2, 5501, 1, 2);
    lemma_full_order_generates(11003, 2);
    lemma_generator_implies_field(2, 11003);
}

/// 13327 is prime: 3 generates its units; its predecessor is
/// 2 * 3 * 2221.
proof fn lemma_prime_13327()
    ensures
        is_field_modulus(13327),
{
    lemma_field_modulus_two();
    lemma_prime_3();
    lemma_prime_2221();
    lemma_powers_fifth();
    lemma_mod_exp(3, 13326, 13327);
    lemma_mod_exp(3, 6663, 13327);
    lemma_mod_exp(3, 4442, 13327);
    lemma_mod_exp(3, 6, 13327);
    lemma_no_early_unit_start(13327, 3, 13326);
    lemma_no_early_unit_extend(13327, 3, 1, 2, 6663, 6663);
    lemma_no_early_unit_extend(13327, 3, 2, 3, 2221, 4442);
    lemma_no_early_unit_extend(13327, 3, 6, 2221, 1, 6);
    lemma_full_order_generates(13327, 3);
    lemma_generator_implies_field(3, 13327);
}

/// 20963 is prime: 2 generates its units; its predecessor is
/// 2 * 47 * 223.
proof fn lemma_prime_20963()
    ensures
        is_field_modulus(20963),
{
    lemma_field_modulus_two();
    lemma_prime_47();
    lemma_prime_223();
    lemma_powers_fifth();
    lemma_mod_exp(2, 20962, 20963);
    lemma_mod_exp(2, 10481, 20963);
    lemma_mod_exp(2, 446, 20963);
    lemma_mod_exp(2, 94, 20963);
    lemma_no_early_unit_start(20963, 2, 20962);
    lemma_no_early_unit_extend(20963, 2, 1, 2, 10481, 10481);
    lemma_no_early_unit_extend(20963, 2, 2, 47, 223, 446);
    lemma_no_early_unit_extend(20963, 2, 94, 223, 1, 94);
    lemma_full_order_generates(20963, 2);
    lemma_generator_implies_field(2, 20963);
}

/// 41927 is prime: 5 generates its units; its predecessor is
/// 2 * 20963.
proof fn lemma_prime_41927()
    ensures
        is_field_modulus(41927),
{
    lemma_field_modulus_two();
    lemma_prime_20963();
    lemma_powers_fifth();
    lemma_mod_exp(5, 41926, 41927);
    lemma_mod_exp(5, 20963, 41927);
    lemma_mod_exp(5, 2, 41927);
    lemma_no_early_unit_start(41927, 5, 41926);
    lemma_no_early_unit_extend(41927, 5, 1, 2, 20963, 20963);
    lemma_no_early_unit_extend(41927, 5, 2, 20963, 1, 2);
    lemma_full_order_generates(41927, 5);
    lemma_generator_implies_field(5, 41927);
}

/// 93001 is prime: 14 generates its units; its predecessor is
/// 2^3 * 3 * 5^3 * 31.
proof fn lemma_prime_93001()
    ensures
        is_field_modulus(93001),
{
    lemma_field_modulus_two();
    lemma_prime_3();
    lemma_prime_5();
    lemma_prime_31();
    lemma_powers_sixth();
    lemma_mod_exp(14, 93000, 93001);
    lemma_mod_exp(14, 46500, 93001);
    lemma_mod_exp(14, 31000, 93001);
    lemma_mod_exp(14, 18600, 93001);
    lemma_mod_exp(14, 3000, 93001);
    lemma_no_early_unit_start(93001, 14, 93000);
    lemma_no_early_unit_extend(93001, 14, 1, 2, 46500, 46500);
    lemma_no_early_unit_extend(93001, 14, 2, 2, 23250, 46500);
    lemma_no_early_unit_extend(93001, 14, 4, 2, 11625, 46500);
    lemma_no_early_unit_extend(93001, 14, 8, 3, 3875, 31000);
    lemma_no_early_unit_extend(93001, 14, 24, 5, 775, 18600);
    lemma_no_early_unit_extend(93001, 14, 120, 5, 155, 18600);
    lemma_no_early_unit_extend(93001, 14, 600, 5, 31, 18600);
    lemma_no_early_unit_extend(93001, 14, 3000, 31, 1, 3000);
    lemma_full_order_generates(93001, 14);
    lemma_generator_implies_field(14, 93001);
}

/// 237073 is prime: 15 generates its units; its predecessor is
/// 2^4 * 3 * 11 * 449.
proof fn lemma_prime_237073()
    ensures
        is_field_modulus(237073),
{
    lemma_field_modulus_two();
    lemma_prime_3();
    lemma_prime_11();
    lemma_prime_449();
    lemma_powers_sixth();
    lemma_mod_exp(15, 237072, 237073);
    lemma_mod_exp(15, 118536, 237073);
    lemma_mod_exp(15, 79024, 237073);
    lemma_mod_exp(15, 21552, 237073);
    lemma_mod_exp(15, 528, 237073);
    lemma_no_early_unit_start(237073, 15, 237072);
    lemma_no_early_unit_extend(237073, 15, 1, 2, 118536, 118536);
    lemma_no_early_unit_extend(237073, 15, 2, 2, 59268, 118536);
    lemma_no_early_unit_extend(237073, 15, 4, 2, 29634, 118536);
    lemma_no_early_unit_extend(237073, 15, 8, 2, 14817, 118536);
    lemma_no_early_unit_extend(237073, 15, 16, 3, 4939, 79024);
    lemma_no_early_unit_extend(237073, 15, 48, 11, 449, 21552);
    lemma_no_early_unit_extend(237073, 15, 528, 449, 1, 528);
    lemma_full_order_generates(237073, 15);
    lemma_generator_implies_field(15, 237073);
}

/// 327599 is prime: 19 generates its units; its predecessor is
/// 2 * 19 * 37 * 233.
proof fn lemma_prime_327599()
    ensures
        is_field_modulus(327599),
{
    lemma_field_modulus_two();
    lemma_prime_19();
    lemma_prime_37();
    lemma_prime_233();
    lemma_powers_sixth();
    lemma_mod_exp(19, 327598, 327599);
    lemma_mod_exp(19, 163799, 327599);
    lemma_mod_exp(19, 17242, 327599);
    lemma_mod_exp(19, 8854, 327599);
    lemma_mod_exp(19, 1406, 327599);
    lemma_no_early_unit_start(327599, 19, 327598);
    lemma_no_early_unit_extend(327599, 19, 1, 2, 163799, 163799);
    lemma_no_early_unit_extend(327599, 19, 2, 19, 8621, 17242);
    lemma_no_early_unit_extend(327599, 19, 38, 37, 233, 8854);
    lemma_no_early_unit_extend(327599, 19, 1406, 233, 1, 1406);
    lemma_full_order_generates(327599, 19);
    lemma_generator_implies_field(19, 327599);
}

/// 1593227 is prime: 2 generates its units; its predecessor is
/// 2 * 19 * 41927.
proof fn lemma_prime_1593227()
    ensures
        is_field_modulus(1593227),
{
    lemma_field_modulus_two();
    lemma_prime_19();
    lemma_prime_41927();
    lemma_powers_sixth();
    lemma_mod_exp(2, 1593226, 1593227);
    lemma_mod_exp(2, 796613, 1593227);
    lemma_mod_exp(2, 83854, 1593227);
    lemma_mod_exp(2, 38, 1593227);
    lemma_no_early_unit_start(1593227, 2, 1593226);
    lemma_no_early_unit_extend(1593227, 2, 1, 2, 796613, 796613);
    lemma_no_early_unit_extend(1593227, 2, 2, 19, 41927, 83854);
    lemma_no_early_unit_extend(1593227, 2, 38, 41927, 1, 38);
    lemma_full_order_generates(1593227, 2);
    lemma_generator_implies_field(2, 1593227);
}

/// 1853641 is prime: 17 generates its units; its predecessor is
/// 2^3 * 3^2 * 5 * 19 * 271.
proof fn lemma_prime_1853641()
    ensures
        is_field_modulus(1853641),
{
    lemma_field_modulus_two();
    lemma_prime_3();
    lemma_prime_5();
    lemma_prime_19();
    lemma_prime_271();
    lemma_powers_sixth();
    lemma_mod_exp(17, 1853640, 1853641);
    lemma_mod_exp(17, 926820, 1853641);
    lemma_mod_exp(17, 617880, 1853641);
    lemma_mod_exp(17, 370728, 1853641);
    lemma_mod_exp(17, 97560, 1853641);
    lemma_mod_exp(17, 6840, 1853641);
    lemma_no_early_unit_start(1853641, 17, 1853640);
    lemma_no_early_unit_extend(1853641, 17, 1, 2, 926820, 926820);
    lemma_no_early_unit_extend(1853641, 17, 2, 2, 463410, 926820);
    lemma_no_early_unit_extend(1853641, 17, 4, 2, 231705, 926820);
    lemma_no_early_unit_extend(1853641, 17, 8, 3, 77235, 617880);
    lemma_no_early_unit_extend(1853641, 17, 24, 3, 25745, 617880);
    lemma_no_early_unit_extend(1853641, 17, 72, 5, 5149, 370728);
    lemma_no_early_unit_extend(1853641, 17, 360, 19, 271, 97560);
    lemma_no_early_unit_extend(1853641, 17, 6840, 271, 1, 6840);
    lemma_full_order_generates(1853641, 17);
    lemma_generator_implies_field(17, 1853641);
}

/// 4562087 is prime: 5 generates its units; its predecessor is
/// 2 * 17 * 109 * 1231.
proof fn lemma_prime_4562087()
    ensures
        is_field_modulus(4562087),
{
    lemma_field_modulus_two();
    lemma_prime_17();
    lemma_prime_109();
    lemma_prime_1231();
    lemma_powers_sixth();
    lemma_mod_exp(5, 4562086, 4562087);
    lemma_mod_exp(5, 2281043, 4562087);
    lemma_mod_exp(5, 268358, 4562087);
    lemma_mod_exp(5, 41854, 4562087);
    lemma_mod_exp(5, 3706, 4562087);
    lemma_no_early_unit_start(4562087, 5, 4562086);
    lemma_no_early_unit_extend(4562087, 5, 1, 2, 2281043, 2281043);
    lemma_no_early_unit_extend(4562087, 5, 2, 17, 134179, 268358);
    lemma_no_early_unit_extend(4562087, 5, 34, 109, 1231, 41854);
    lemma_no_early_unit_extend(4562087, 5, 3706, 1231, 1, 3706);
    lemma_full_order_generates(4562087, 5);
    lemma_generator_implies_field(5, 4562087);
}

/// 173171039 is prime: 13 generates its units; its predecessor is
/// 2 * 73 * 89 * 13327.
proof fn lemma_prime_173171039()
    ensures
        is_field_modulus(173171039),
{
    lemma_field_modulus_two();
    lemma_prime_73();
    lemma_prime_89();
    lemma_prime_13327();
    lemma_powers_sixth();
    lemma_mod_exp(13, 173171038, 173171039);
    lemma_mod_exp(13, 86585519, 173171039);
    lemma_mod_exp(13, 2372206, 173171039);
    lemma_mod_exp(13, 1945742, 173171039);
    lemma_mod_exp(13, 12994, 173171039);
    lemma_no_early_unit_start(173171039, 13, 173171038);
    lemma_no_early_unit_extend(173171039, 13, 1, 2, 86585519, 86585519);
    lemma_no_early_unit_extend(173171039, 13, 2, 73, 1186103, 2372206);
    lemma_no_early_unit_extend(173171039, 13, 146, 89, 13327, 1945742);
    lemma_no_early_unit_extend(173171039, 13, 12994, 13327, 1, 12994);
    lemma_full_order_generates(173171039, 13);
    lemma_generator_implies_field(13, 173171039);
}

/// 405928799 is prime: 22 generates its units; its predecessor is
/// 2 * 11 * 3691 * 4999.
proof fn lemma_prime_405928799()
    ensures
        is_field_modulus(405928799),
{
    lemma_field_modulus_two();
    lemma_prime_11();
    lemma_prime_3691();
    lemma_prime_4999();
    lemma_powers_seventh();
    lemma_mod_exp(22, 405928798, 405928799);
    lemma_mod_exp(22, 202964399, 405928799);
    lemma_mod_exp(22, 36902618, 405928799);
    lemma_mod_exp(22, 109978, 405928799);
    lemma_mod_exp(22, 81202, 405928799);
    lemma_no_early_unit_start(405928799, 22, 405928798);
    lemma_no_early_unit_extend(405928799, 22, 1, 2, 202964399, 202964399);
    lemma_no_early_unit_extend(405928799, 22, 2, 11, 18451309, 36902618);
    lemma_no_early_unit_extend(405928799, 22, 22, 3691, 4999, 109978);
    lemma_no_early_unit_extend(405928799, 22, 81202, 4999, 1, 81202);
    lemma_full_order_generates(405928799, 22);
    lemma_generator_implies_field(22, 405928799);
}

/// 639533339 is prime: 2 generates its units; its predecessor is
/// 2 * 229 * 853 * 1637.
proof fn lemma_prime_639533339()
    ensures
        is_field_modulus(639533339),
{
    lemma_field_modulus_two();
    lemma_prime_229();
    lemma_prime_853();
    lemma_prime_1637();
    lemma_powers_seventh();
    lemma_mod_exp(2, 639533338, 639533339);
    lemma_mod_exp(2, 319766669, 639533339);
    lemma_mod_exp(2, 2792722, 639533339);
    lemma_mod_exp(2, 749746, 639533339);
    lemma_mod_exp(2, 390674, 639533339);
    lemma_no_early_unit_start(639533339, 2, 639533338);
    lemma_no_early_unit_extend(639533339, 2, 1, 2, 319766669, 319766669);
    lemma_no_early_unit_extend(639533339, 2, 2, 229, 1396361, 2792722);
    lemma_no_early_unit_extend(639533339, 2, 458, 853, 1637, 749746);
    lemma_no_early_unit_extend(639533339, 2, 390674, 1637, 1, 390674);
    lemma_full_order_generates(639533339, 2);
    lemma_generator_implies_field(2, 639533339);
}

/// 1263766531 is prime: 10 generates its units; its predecessor is
/// 2 * 3 * 5 * 13 * 911 * 3557.
proof fn lemma_prime_1263766531()
    ensures
        is_field_modulus(1263766531),
{
    lemma_field_modulus_two();
    lemma_prime_3();
    lemma_prime_5();
    lemma_prime_13();
    lemma_prime_911();
    lemma_prime_3557();
    lemma_powers_seventh();
    lemma_mod_exp(10, 1263766530, 1263766531);
    lemma_mod_exp(10, 631883265, 1263766531);
    lemma_mod_exp(10, 421255510, 1263766531);
    lemma_mod_exp(10, 252753306, 1263766531);
    lemma_mod_exp(10, 97212810, 1263766531);
    lemma_mod_exp(10, 1387230, 1263766531);
    lemma_mod_exp(10, 355290, 1263766531);
    lemma_no_early_unit_start(1263766531, 10, 1263766530);
    lemma_no_early_unit_extend(1263766531, 10, 1, 2, 631883265, 631883265);
    lemma_no_early_unit_extend(1263766531, 10, 2, 3, 210627755, 421255510);
    lemma_no_early_unit_extend(1263766531, 10, 6, 5, 42125551, 252753306);
    lemma_no_early_unit_extend(1263766531, 10, 30, 13, 3240427, 97212810);
    lemma_no_early_unit_extend(1263766531, 10, 390, 911, 3557, 1387230);
    lemma_no_early_unit_extend(1263766531, 10, 355290, 3557, 1, 355290);
    lemma_full_order_generates(1263766531, 10);
    lemma_generator_implies_field(10, 1263766531);
}

/// 11465965001 is prime: 3 generates its units; its predecessor is
/// 2^3 * 5^4 * 7 * 327599.
proof fn lemma_prime_11465965001()
    ensures
        is_field_modulus(11465965001),
{
    lemma_field_modulus_two();
    lemma_prime_5();
    lemma_prime_7();
    lemma_prime_327599();
    lemma_powers_seventh();
    lemma_mod_exp(3, 11465965000, 11465965001);
    lemma_mod_exp(3, 5732982500, 11465965001);
    lemma_mod_exp(3, 2293193000, 11465965001);
    lemma_mod_exp(3, 1637995000, 11465965001);
    lemma_mod_exp(3, 35000, 11465965001);
    lemma_no_early_unit_start(11465965001, 3, 11465965000);
    lemma_no_early_unit_extend(11465965001, 3, 1, 2, 5732982500, 5732982500);
    lemma_no_early_unit_extend(11465965001, 3, 2, 2, 2866491250, 5732982500);
    lemma_no_early_unit_extend(11465965001, 3, 4, 2, 1433245625, 5732982500);
    lemma_no_early_unit_extend(11465965001, 3, 8, 5, 286649125, 2293193000);
    lemma_no_early_unit_extend(11465965001, 3, 40, 5, 57329825, 2293193000);
    lemma_no_early_unit_extend(11465965001, 3, 200, 5, 11465965, 2293193000);
    lemma_no_early_unit_extend(11465965001, 3, 1000, 5, 2293193, 2293193000);
    lemma_no_early_unit_extend(11465965001, 3, 5000, 7, 327599, 1637995000);
    lemma_no_early_unit_extend(11465965001, 3, 35000, 327599, 1, 35000);
    lemma_full_order_generates(11465965001, 3);
    lemma_generator_implies_field(3, 11465965001);
}

/// 12048837557 is prime: 2 generates its units; its predecessor is
/// 2^2 * 7^2 * 661 * 93001.
proof fn lemma_prime_12048837557()
    ensures
        is_field_modulus(12048837557),
{
    lemma_field_modulus_two();
    lemma_prime_7();
    lemma_prime_661();
    lemma_prime_93001();
    lemma_powers_seventh();
    lemma_mod_exp(2, 12048837556, 12048837557);
    lemma_mod_exp(2, 6024418778, 12048837557);
    lemma_mod_exp(2, 1721262508, 12048837557);
    lemma_mod_exp(2, 18228196, 12048837557);
    lemma_mod_exp(2, 129556, 12048837557);
    lemma_no_early_unit_start(12048837557, 2, 12048837556);
    lemma_no_early_unit_extend(12048837557, 2, 1, 2, 6024418778, 6024418778);
    lemma_no_early_unit_extend(12048837557, 2, 2, 2, 3012209389, 6024418778);
    lemma_no_early_unit_extend(12048837557, 2, 4, 7, 430315627, 1721262508);
    lemma_no_early_unit_extend(12048837557, 2, 28, 7, 61473661, 1721262508);
    lemma_no_early_unit_extend(12048837557, 2, 196, 661, 93001, 18228196);
    lemma_no_early_unit_extend(12048837557, 2, 129556, 93001, 1, 129556);
    lemma_full_order_generates(12048837557, 2);
    lemma_generator_implies_field(2, 12048837557);
}

/// 35385462869 is prime: 2 generates its units; its predecessor is
/// 2^2 * 7 * 1263766531.
proof fn lemma_prime_35385462869()
    ensures
        is_field_modulus(35385462869),
{
    lemma_field_modulus_two();
    lemma_prime_7();
    lemma_prime_1263766531();
    lemma_powers_seventh();
    lemma_mod_exp(2, 35385462868, 35385462869);
    lemma_mod_exp(2, 17692731434, 35385462869);
    lemma_mod_exp(2, 5055066124, 35385462869);
    lemma_mod_exp(2, 28, 35385462869);
    lemma_no_early_unit_start(35385462869, 2, 35385462868);
    lemma_no_early_unit_extend(35385462869, 2, 1, 2, 17692731434, 17692731434);
    lemma_no_early_unit_extend(35385462869, 2, 2, 2, 8846365717, 17692731434);
    lemma_no_early_unit_extend(35385462869, 2, 4, 7, 1263766531, 5055066124);
    lemma_no_early_unit_extend(35385462869, 2, 28, 1263766531, 1, 28);
    lemma_full_order_generates(35385462869, 2);
    lemma_generator_implies_field(2, 35385462869);
}

/// 5156902474397 is prime: 2 generates its units; its predecessor is
/// 2^2 * 107 * 12048837557.
proof fn lemma_prime_5156902474397()
    ensures
        is_field_modulus(5156902474397),
{
    lemma_field_modulus_two();
    lemma_prime_107();
    lemma_prime_12048837557();
    lemma_powers_seventh();
    lemma_mod_exp(2, 5156902474396, 5156902474397);
    lemma_mod_exp(2, 2578451237198, 5156902474397);
    lemma_mod_exp(2, 48195350228, 5156902474397);
    lemma_mod_exp(2, 428, 5156902474397);
    lemma_no_early_unit_start(5156902474397, 2, 5156902474396);
    lemma_no_early_unit_extend(5156902474397, 2, 1, 2, 2578451237198, 2578451237198);
    lemma_no_early_unit_extend(5156902474397, 2, 2, 2, 1289225618599, 2578451237198);
    lemma_no_early_unit_extend(5156902474397, 2, 4, 107, 12048837557, 48195350228);
    lemma_no_early_unit_extend(5156902474397, 2, 428, 12048837557, 1, 428);
    lemma_full_order_generates(5156902474397, 2);
    lemma_generator_implies_field(2, 5156902474397);
}

/// 1670836401704629 is prime: 2 generates its units; its predecessor is
/// 2^2 * 3^4 * 5156902474397.
proof fn lemma_prime_1670836401704629()
    ensures
        is_field_modulus(1670836401704629),
{
    lemma_field_modulus_two();
    lemma_prime_3();
    lemma_prime_5156902474397();
    lemma_powers_eighth();
    lemma_mod_exp(2, 1670836401704628, 1670836401704629);
    lemma_mod_exp(2, 835418200852314, 1670836401704629);
    lemma_mod_exp(2, 556945467234876, 1670836401704629);
    lemma_mod_exp(2, 324, 1670836401704629);
    lemma_no_early_unit_start(1670836401704629, 2, 1670836401704628);
    lemma_no_early_unit_extend(1670836401704629, 2, 1, 2, 835418200852314, 835418200852314);
    lemma_no_early_unit_extend(1670836401704629, 2, 2, 2, 417709100426157, 835418200852314);
    lemma_no_early_unit_extend(1670836401704629, 2, 4, 3, 139236366808719, 556945467234876);
    lemma_no_early_unit_extend(1670836401704629, 2, 12, 3, 46412122269573, 556945467234876);
    lemma_no_early_unit_extend(1670836401704629, 2, 36, 3, 15470707423191, 556945467234876);
    lemma_no_early_unit_extend(1670836401704629, 2, 108, 3, 5156902474397, 556945467234876);
    lemma_no_early_unit_extend(1670836401704629, 2, 324, 5156902474397, 1, 324);
    lemma_full_order_generates(1670836401704629, 2);
    lemma_generator_implies_field(2, 1670836401704629);
}

/// 2480874801745591 is prime: 6 generates its units; its predecessor is
/// 2 * 3^2 * 5 * 19 * 41 * 35385462869.
proof fn lemma_prime_2480874801745591()
    ensures
        is_field_modulus(2480874801745591),
{
    lemma_field_modulus_two();
    lemma_prime_3();
    lemma_prime_5();
    lemma_prime_19();
    lemma_prime_41();
    lemma_prime_35385462869();
    lemma_powers_eighth();
    lemma_mod_exp(6, 2480874801745590, 2480874801745591);
    lemma_mod_exp(6, 1240437400872795, 2480874801745591);
    lemma_mod_exp(6, 826958267248530, 2480874801745591);
    lemma_mod_exp(6, 496174960349118, 2480874801745591);
    lemma_mod_exp(6, 130572357986610, 2480874801745591);
    lemma_mod_exp(6, 60509141505990, 2480874801745591);
    lemma_mod_exp(6, 70110, 2480874801745591);
    lemma_no_early_unit_start(2480874801745591, 6, 2480874801745590);
    lemma_no_early_unit_extend(2480874801745591, 6, 1, 2, 1240437400872795, 1240437400872795);
    lemma_no_early_unit_extend(2480874801745591, 6, 2, 3, 413479133624265, 826958267248530);
    lemma_no_early_unit_extend(2480874801745591, 6, 6, 3, 137826377874755, 826958267248530);
    lemma_no_early_unit_extend(2480874801745591, 6, 18, 5, 27565275574951, 496174960349118);
    lemma_no_early_unit_extend(2480874801745591, 6, 90, 19, 1450803977629, 130572357986610);
    lemma_no_early_unit_extend(2480874801745591, 6, 1710, 41, 35385462869, 60509141505990);
    lemma_no_early_unit_extend(2480874801745591, 6, 70110, 35385462869, 1, 70110);
    lemma_full_order_generates(2480874801745591, 6);
    lemma_generator_implies_field(6, 2480874801745591);
}

/// 65865678001877903 is prime: 5 generates its units; its predecessor is
/// 2 * 83 * 379 * 1637 * 639533339.
proof fn lemma_prime_65865678001877903()
    ensures
        is_field_modulus(65865678001877903),
{
    lemma_field_modulus_two();
    lemma_prime_83();
    lemma_prime_379();
    lemma_prime_1637();
    lemma_prime_639533339();
    lemma_powers_eighth();
    lemma_mod_exp(5, 65865678001877902, 65865678001877903);
    lemma_mod_exp(5, 32932839000938951, 65865678001877903);
    lemma_mod_exp(5, 793562385564794, 65865678001877903);
    lemma_mod_exp(5, 173788068606538, 65865678001877903);
    lemma_mod_exp(5, 40235600489846, 65865678001877903);
    lemma_mod_exp(5, 102990218, 65865678001877903);
    lemma_no_early_unit_start(65865678001877903, 5, 65865678001877902);
    lemma_no_early_unit_extend(65865678001877903, 5, 1, 2, 32932839000938951, 32932839000938951);
    lemma_no_early_unit_extend(65865678001877903, 5, 2, 83, 396781192782397, 793562385564794);
    lemma_no_early_unit_extend(65865678001877903, 5, 166, 379, 1046916075943, 173788068606538);
    lemma_no_early_unit_extend(65865678001877903, 5, 62914, 1637, 639533339, 40235600489846);
    lemma_no_early_unit_extend(65865678001877903, 5, 102990218, 639533339, 1, 102990218);
    lemma_full_order_generates(65865678001877903, 5);
    lemma_generator_implies_field(5, 65865678001877903);
}

/// 13818364434197438864469338081 is prime: 3 generates its units; its predecessor is
/// 2^5 * 5 * 823 * 1593227 * 65865678001877903.
proof fn lemma_prime_13818364434197438864469338081()
    ensures
        is_field_modulus(13818364434197438864469338081nat),
{
    lemma_field_modulus_two();
    lemma_prime_5();
    lemma_prime_823();
    lemma_prime_1593227();
    lemma_prime_65865678001877903();
    lemma_powers_eighth();
    lemma_mod_exp(3, 13818364434197438864469338080nat, 13818364434197438864469338081nat);
    lemma_mod_exp(3, 6909182217098719432234669040nat, 13818364434197438864469338081nat);
    lemma_mod_exp(3, 2763672886839487772893867616nat, 13818364434197438864469338081nat);
    lemma_mod_exp(3, 16790236250543668122076960nat, 13818364434197438864469338081nat);
    lemma_mod_exp(3, 8673192479287282267040nat, 13818364434197438864469338081nat);
    lemma_mod_exp(3, 209796131360, 13818364434197438864469338081nat);
    lemma_no_early_unit_start(13818364434197438864469338081nat, 3, 13818364434197438864469338080nat);
    lemma_no_early_unit_extend(13818364434197438864469338081nat, 3, 1, 2, 6909182217098719432234669040nat, 6909182217098719432234669040nat);
    lemma_no_early_unit_extend(13818364434197438864469338081nat, 3, 2, 2, 3454591108549359716117334520nat, 6909182217098719432234669040nat);
    lemma_no_early_unit_extend(13818364434197438864469338081nat, 3, 4, 2, 1727295554274679858058667260nat, 6909182217098719432234669040nat);
    lemma_no_early_unit_extend(13818364434197438864469338081nat, 3, 8, 2, 863647777137339929029333630nat, 6909182217098719432234669040nat);
    lemma_no_early_unit_extend(13818364434197438864469338081nat, 3, 16, 2, 431823888568669964514666815nat, 6909182217098719432234669040nat);
    lemma_no_early_unit_extend(13818364434197438864469338081nat, 3, 32, 5, 86364777713733992902933363nat, 2763672886839487772893867616nat);
    lemma_no_early_unit_extend(13818364434197438864469338081nat, 3, 160, 823, 104938976565897925762981nat, 16790236250543668122076960nat);
    lemma_no_early_unit_extend(13818364434197438864469338081nat, 3, 131680, 1593227, 65865678001877903, 8673192479287282267040nat);
    lemma_no_early_unit_extend(13818364434197438864469338081nat, 3, 209796131360, 65865678001877903, 1, 209796131360);
    lemma_full_order_generates(13818364434197438864469338081nat, 3);
    lemma_generator_implies_field(3, 13818364434197438864469338081nat);
}

/// 13427688667394608761327070753331941386769 is prime: 17 generates its units; its predecessor is
/// 2^4 * 3 * 7 * 11 * 1853641 * 4562087 * 173171039 * 2480874801745591.
proof fn lemma_prime_13427688667394608761327070753331941386769()
    ensures
        is_field_modulus(13427688667394608761327070753331941386769nat),
{
    lemma_field_modulus_two();
    lemma_prime_3();
    lemma_prime_7();
    lemma_prime_11();
    lemma_prime_1853641();
    lemma_prime_4562087();
    lemma_prime_173171039();
    lemma_prime_2480874801745591();
    lemma_powers_eighth();
    lemma_mod_exp(17, 13427688667394608761327070753331941386768nat, 13427688667394608761327070753331941386769nat);
    lemma_mod_exp(17, 6713844333697304380663535376665970693384nat, 13427688667394608761327070753331941386769nat);
    lemma_mod_exp(17, 4475896222464869587109023584443980462256nat, 13427688667394608761327070753331941386769nat);
    lemma_mod_exp(17, 1918241238199229823046724393333134483824nat, 13427688667394608761327070753331941386769nat);
    lemma_mod_exp(17, 1220698969763146251029733704848358307888nat, 13427688667394608761327070753331941386769nat);
    lemma_mod_exp(17, 7243953207441251440449941899932048nat, 13427688667394608761327070753331941386769nat);
    lemma_mod_exp(17, 2943321481461140210900640595703664nat, 13427688667394608761327070753331941386769nat);
    lemma_mod_exp(17, 77540036399473290457806115913712nat, 13427688667394608761327070753331941386769nat);
    lemma_mod_exp(17, 5412481378724403979982448nat, 13427688667394608761327070753331941386769nat);
    lemma_no_early_unit_start(13427688667394608761327070753331941386769nat, 17, 13427688667394608761327070753331941386768nat);
    lemma_no_early_unit_extend(13427688667394608761327070753331941386769nat, 17, 1, 2, 6713844333697304380663535376665970693384nat, 6713844333697304380663535376665970693384nat);
    lemma_no_early_unit_extend(13427688667394608761327070753331941386769nat, 17, 2, 2, 3356922166848652190331767688332985346692nat, 6713844333697304380663535376665970693384nat);
    lemma_no_early_unit_extend(13427688667394608761327070753331941386769nat, 17, 4, 2, 1678461083424326095165883844166492673346nat, 6713844333697304380663535376665970693384nat);
    lemma_no_early_unit_extend(13427688667394608761327070753331941386769nat, 17, 8, 2, 839230541712163047582941922083246336673nat, 6713844333697304380663535376665970693384nat);
    lemma_no_early_unit_extend(13427688667394608761327070753331941386769nat, 17, 16, 3, 279743513904054349194313974027748778891nat, 4475896222464869587109023584443980462256nat);
    lemma_no_early_unit_extend(13427688667394608761327070753331941386769nat, 17, 48, 7, 39963359129150621313473424861106968413nat, 1918241238199229823046724393333134483824nat);
    lemma_no_early_unit_extend(13427688667394608761327070753331941386769nat, 17, 336, 11, 3633032648104601937588493169191542583nat, 1220698969763146251029733704848358307888nat);
    lemma_no_early_unit_extend(13427688667394608761327070753331941386769nat, 17, 3696, 1853641, 1959944049632373225229962635263nat, 7243953207441251440449941899932048nat);
    lemma_no_early_unit_extend(13427688667394608761327070753331941386769nat, 17, 6851057136, 4562087, 429615667047203007139049nat, 2943321481461140210900640595703664nat);
    lemma_no_early_unit_extend(13427688667394608761327070753331941386769nat, 17, 31255118696402832, 173171039, 2480874801745591, 77540036399473290457806115913712nat);
    lemma_no_early_unit_extend(13427688667394608761327070753331941386769nat, 17, 5412481378724403979982448nat, 2480874801745591, 1, 5412481378724403979982448nat);
    lemma_full_order_generates(13427688667394608761327070753331941386769nat, 17);
    lemma_generator_implies_field(17, 13427688667394608761327070753331941386769nat);
}

/// The prime of the scalar field is prime: 5 generates its units. Its
/// predecessor is
/// 2^28 * 3^2 * 13 * 29 * 983 * 11003 * 237073 * 405928799 * 1670836401704629 * 13818364434197438864469338081.
pub proof fn lemma_scalar_prime()
    ensures
        is_generator(5, 21888242871839275222246405745257275088548364400416034343698204186575808495617nat),
        is_field_modulus(21888242871839275222246405745257275088548364400416034343698204186575808495617nat),
{
    lemma_field_modulus_two();
    lemma_prime_3();
    lemma_prime_13();
    lemma_prime_29();
    lemma_prime_983();
    lemma_prime_11003();
    lemma_prime_237073();
    lemma_prime_405928799();
    lemma_prime_1670836401704629();
    lemma_prime_13818364434197438864469338081();
    lemma_powers_ninth();
    lemma_mod_exp(5, 21888242871839275222246405745257275088548364400416034343698204186575808495616nat, 21888242871839275222246405745257275088548364400416034343698204186575808495617nat);
    lemma_mod_exp(5, 10944121435919637611123202872628637544274182200208017171849102093287904247808nat, 21888242871839275222246405745257275088548364400416034343698204186575808495617nat);
    lemma_mod_exp(5, 7296080957279758407415468581752425029516121466805344781232734728858602831872nat, 21888242871839275222246405745257275088548364400416034343698204186575808495617nat);
    lemma_mod_exp(5, 1683710990141482709403569672712098083734489569262771872592169552813523730432nat, 21888242871839275222246405745257275088548364400416034343698204186575808495617nat);
    lemma_mod_exp(5, 754766995580664662836082956733009485812012565531587391162007040916407189504nat, 21888242871839275222246405745257275088548364400416034343698204186575808495617nat);
    lemma_mod_exp(5, 22266778099531307448877320188461114027007491760341845720954429487869591552nat, 21888242871839275222246405745257275088548364400416034343698204186575808495617nat);
    lemma_mod_exp(5, 1989297725333025104266691424634851866631679033028813445760083994053967872nat, 21888242871839275222246405745257275088548364400416034343698204186575808495617nat);
    lemma_mod_exp(5, 92327016875980289709272695521030547926370208334209439049146061283131392nat, 21888242871839275222246405745257275088548364400416034343698204186575808495617nat);
    lemma_mod_exp(5, 53921384552563552462426805409431605981098090062873401459989056323584nat, 21888242871839275222246405745257275088548364400416034343698204186575808495617nat);
    lemma_mod_exp(5, 13100171177446423556613374118717413492986637444144570673659904nat, 21888242871839275222246405745257275088548364400416034343698204186575808495617nat);
    lemma_mod_exp(5, 1583996642733683218748855262055434666238317428736nat, 21888242871839275222246405745257275088548364400416034343698204186575808495617nat);
    lemma_no_early_unit_start(21888242871839275222246405745257275088548364400416034343698204186575808495617nat, 5, 21888242871839275222246405745257275088548364400416034343698204186575808495616nat);
    lemma_no_early_unit_extend(21888242871839275222246405745257275088548364400416034343698204186575808495617nat, 5, 1, 2, 10944121435919637611123202872628637544274182200208017171849102093287904247808nat, 10944121435919637611123202872628637544274182200208017171849102093287904247808nat);
    lemma_no_early_unit_extend(21888242871839275222246405745257275088548364400416034343698204186575808495617nat, 5, 2, 2, 5472060717959818805561601436314318772137091100104008585924551046643952123904nat, 10944121435919637611123202872628637544274182200208017171849102093287904247808nat);
    lemma_no_early_unit_extend(21888242871839275222246405745257275088548364400416034343698204186575808495617nat, 5, 4, 2, 2736030358979909402780800718157159386068545550052004292962275523321976061952nat, 10944121435919637611123202872628637544274182200208017171849102093287904247808nat);
    lemma_no_early_unit_extend(21888242871839275222246405745257275088548364400416034343698204186575808495617nat, 5, 8, 2, 1368015179489954701390400359078579693034272775026002146481137761660988030976nat, 10944121435919637611123202872628637544274182200208017171849102093287904247808nat);
    lemma_no_early_unit_extend(21888242871839275222246405745257275088548364400416034343698204186575808495617nat, 5, 16, 2, 684007589744977350695200179539289846517136387513001073240568880830494015488nat, 10944121435919637611123202872628637544274182200208017171849102093287904247808nat);
    lemma_no_early_unit_extend(21888242871839275222246405745257275088548364400416034343698204186575808495617nat, 5, 32, 2, 342003794872488675347600089769644923258568193756500536620284440415247007744nat, 10944121435919637611123202872628637544274182200208017171849102093287904247808nat);
    lemma_no_early_unit_extend(21888242871839275222246405745257275088548364400416034343698204186575808495617nat, 5, 64, 2, 171001897436244337673800044884822461629284096878250268310142220207623503872nat, 10944121435919637611123202872628637544274182200208017171849102093287904247808nat);
    lemma_no_early_unit_extend(21888242871839275222246405745257275088548364400416034343698204186575808495617nat, 5, 128, 2, 85500948718122168836900022442411230814642048439125134155071110103811751936nat, 10944121435919637611123202872628637544274182200208017171849102093287904247808nat);
    lemma_no_early_unit_extend(21888242871839275222246405745257275088548364400416034343698204186575808495617nat, 5, 256, 2, 42750474359061084418450011221205615407321024219562567077535555051905875968nat, 10944121435919637611123202872628637544274182200208017171849102093287904247808nat);
    lemma_no_early_unit_extend(21888242871839275222246405745257275088548364400416034343698204186575808495617nat, 5, 512, 2, 21375237179530542209225005610602807703660512109781283538767777525952937984nat, 10944121435919637611123202872628637544274182200208017171849102093287904247808nat);
    lemma_no_early_unit_extend(21888242871839275222246405745257275088548364400416034343698204186575808495617nat, 5, 1024, 2, 10687618589765271104612502805301403851830256054890641769383888762976468992nat, 10944121435919637611123202872628637544274182200208017171849102093287904247808nat);
    lemma_no_early_unit_extend(21888242871839275222246405745257275088548364400416034343698204186575808495617nat, 5, 2048, 2, 5343809294882635552306251402650701925915128027445320884691944381488234496nat, 10944121435919637611123202872628637544274182200208017171849102093287904247808nat);
    lemma_no_early_unit_extend(21888242871839275222246405745257275088548364400416034343698204186575808495617nat, 5, 4096, 2, 2671904647441317776153125701325350962957564013722660442345972190744117248nat, 10944121435919637611123202872628637544274182200208017171849102093287904247808nat);
    lemma_no_early_unit_extend(21888242871839275222246405745257275088548364400416034343698204186575808495617nat, 5, 8192, 2, 1335952323720658888076562850662675481478782006861330221172986095372058624nat, 10944121435919637611123202872628637544274182200208017171849102093287904247808nat);
    lemma_no_early_unit_extend(21888242871839275222246405745257275088548364400416034343698204186575808495617nat, 5, 16384, 2, 667976161860329444038281425331337740739391003430665110586493047686029312nat, 10944121435919637611123202872628637544274182200208017171849102093287904247808nat);
    lemma_no_early_unit_extend(21888242871839275222246405745257275088548364400416034343698204186575808495617nat, 5, 32768, 2, 333988080930164722019140712665668870369695501715332555293246523843014656nat, 10944121435919637611123202872628637544274182200208017171849102093287904247808nat);
    lemma_no_early_unit_extend(21888242871839275222246405745257275088548364400416034343698204186575808495617nat, 5, 65536, 2, 166994040465082361009570356332834435184847750857666277646623261921507328nat, 10944121435919637611123202872628637544274182200208017171849102093287904247808nat);
    lemma_no_early_unit_extend(21888242871839275222246405745257275088548364400416034343698204186575808495617nat, 5, 131072, 2, 83497020232541180504785178166417217592423875428833138823311630960753664nat, 10944121435919637611123202872628637544274182200208017171849102093287904247808nat);
    lemma_no_early_unit_extend(21888242871839275222246405745257275088548364400416034343698204186575808495617nat, 5, 262144, 2, 41748510116270590252392589083208608796211937714416569411655815480376832nat, 10944121435919637611123202872628637544274182200208017171849102093287904247808nat);
    lemma_no_early_unit_extend(21888242871839275222246405745257275088548364400416034343698204186575808495617nat, 5, 524288, 2, 20874255058135295126196294541604304398105968857208284705827907740188416nat, 10944121435919637611123202872628637544274182200208017171849102093287904247808nat);
    lemma_no_early_unit_extend(21888242871839275222246405745257275088548364400416034343698204186575808495617nat, 5, 1048576, 2, 10437127529067647563098147270802152199052984428604142352913953870094208nat, 10944121435919637611123202872628637544274182200208017171849102093287904247808nat);
    lemma_no_early_unit_extend(21888242871839275222246405745257275088548364400416034343698204186575808495617nat, 5, 2097152, 2, 5218563764533823781549073635401076099526492214302071176456976935047104nat, 10944121435919637611123202872628637544274182200208017171849102093287904247808nat);
    lemma_no_early_unit_extend(21888242871839275222246405745257275088548364400416034343698204186575808495617nat, 5, 4194304, 2, 2609281882266911890774536817700538049763246107151035588228488467523552nat, 10944121435919637611123202872628637544274182200208017171849102093287904247808nat);
    lemma_no_early_unit_extend(21888242871839275222246405745257275088548364400416034343698204186575808495617nat, 5, 8388608, 2, 1304640941133455945387268408850269024881623053575517794114244233761776nat, 10944121435919637611123202872628637544274182200208017171849102093287904247808nat);
    lemma_no_early_unit_extend(21888242871839275222246405745257275088548364400416034343698204186575808495617nat, 5, 16777216, 2, 652320470566727972693634204425134512440811526787758897057122116880888nat, 10944121435919637611123202872628637544274182200208017171849102093287904247808nat);
    lemma_no_early_unit_extend(21888242871839275222246405745257275088548364400416034343698204186575808495617nat, 5, 33554432, 2, 326160235283363986346817102212567256220405763393879448528561058440444nat, 10944121435919637611123202872628637544274182200208017171849102093287904247808nat);
    lemma_no_early_unit_extend(21888242871839275222246405745257275088548364400416034343698204186575808495617nat, 5, 67108864, 2, 163080117641681993173408551106283628110202881696939724264280529220222nat, 10944121435919637611123202872628637544274182200208017171849102093287904247808nat);
    lemma_no_early_unit_extend(21888242871839275222246405745257275088548364400416034343698204186575808495617nat, 5, 134217728, 2, 81540058820840996586704275553141814055101440848469862132140264610111nat, 10944121435919637611123202872628637544274182200208017171849102093287904247808nat);
    lemma_no_early_unit_extend(21888242871839275222246405745257275088548364400416034343698204186575808495617nat, 5, 268435456, 3, 27180019606946998862234758517713938018367146949489954044046754870037nat, 7296080957279758407415468581752425029516121466805344781232734728858602831872nat);
    lemma_no_early_unit_extend(21888242871839275222246405745257275088548364400416034343698204186575808495617nat, 5, 805306368, 3, 9060006535648999620744919505904646006122382316496651348015584956679nat, 7296080957279758407415468581752425029516121466805344781232734728858602831872nat);
    lemma_no_early_unit_extend(21888242871839275222246405745257275088548364400416034343698204186575808495617nat, 5, 2415919104, 13, 696923579665307663134224577377280462009414024345896257539660381283nat, 1683710990141482709403569672712098083734489569262771872592169552813523730432nat);
    lemma_no_early_unit_extend(21888242871839275222246405745257275088548364400416034343698204186575808495617nat, 5, 31406948352, 29, 24031847574665781487387054392320015931359104287789526122057254527nat, 754766995580664662836082956733009485812012565531587391162007040916407189504nat);
    lemma_no_early_unit_extend(21888242871839275222246405745257275088548364400416034343698204186575808495617nat, 5, 910801502208, 983, 24447454297727142916975640277029517732816993171708571843394969nat, 22266778099531307448877320188461114027007491760341845720954429487869591552nat);
    lemma_no_early_unit_extend(21888242871839275222246405745257275088548364400416034343698204186575808495617nat, 5, 895317876670464, 11003, 2221889875281936100788479530767019697611287210007140947323nat, 1989297725333025104266691424634851866631679033028813445760083994053967872nat);
    lemma_no_early_unit_extend(21888242871839275222246405745257275088548364400416034343698204186575808495617nat, 5, 9851182597005115392nat, 237073, 9372175976521730018975081644755074165389087791554251nat, 92327016875980289709272695521030547926370208334209439049146061283131392nat);
    lemma_no_early_unit_extend(21888242871839275222246405745257275088548364400416034343698204186575808495617nat, 5, 2335449411819793721327616nat, 405928799, 23088226308677670388631582763742451703676949nat, 53921384552563552462426805409431605981098090062873401459989056323584nat);
    lemma_no_early_unit_extend(21888242871839275222246405745257275088548364400416034343698204186575808495617nat, 5, 948026174865265269726259848413184nat, 1670836401704629, 13818364434197438864469338081nat, 13100171177446423556613374118717413492986637444144570673659904nat);
    lemma_no_early_unit_extend(21888242871839275222246405745257275088548364400416034343698204186575808495617nat, 5, 1583996642733683218748855262055434666238317428736nat, 13818364434197438864469338081nat, 1, 1583996642733683218748855262055434666238317428736nat);
    lemma_full_order_generates(21888242871839275222246405745257275088548364400416034343698204186575808495617nat, 5);
    lemma_generator_implies_field(5, 21888242871839275222246405745257275088548364400416034343698204186575808495617nat);
}

/// The prime of the base field is prime: 3 generates its units. Its
/// predecessor is
/// 2 * 3^2 * 13 * 29 * 67 * 229 * 311 * 983 * 11003 * 405928799 * 11465965001 * 13427688667394608761327070753331941386769.
pub proof fn lemma_base_prime()
    ensures
        is_generator(3, 21888242871839275222246405745257275088696311157297823662689037894645226208583nat),
        is_field_modulus(21888242871839275222246405745257275088696311157297823662689037894645226208583nat),
{
    lemma_field_modulus_two();
    lemma_prime_3();
    lemma_prime_13();
    lemma_prime_29();
    lemma_prime_67();
    lemma_prime_229();
    lemma_prime_311();
    lemma_prime_983();
    lemma_prime_11003();
    lemma_prime_405928799();
    lemma_prime_11465965001();
    lemma_prime_13427688667394608761327070753331941386769();
    lemma_powers_ninth();
    lemma_mod_exp(3, 21888242871839275222246405745257275088696311157297823662689037894645226208582nat, 21888242871839275222246405745257275088696311157297823662689037894645226208583nat);
    lemma_mod_exp(3, 10944121435919637611123202872628637544348155578648911831344518947322613104291nat, 21888242871839275222246405745257275088696311157297823662689037894645226208583nat);
    lemma_mod_exp(3, 7296080957279758407415468581752425029565437052432607887563012631548408736194nat, 21888242871839275222246405745257275088696311157297823662689037894645226208583nat);
    lemma_mod_exp(3, 1683710990141482709403569672712098083745870089022909512514541376511171246814nat, 21888242871839275222246405745257275088696311157297823662689037894645226208583nat);
    lemma_mod_exp(3, 754766995580664662836082956733009485817114177837855988368587513608456076158nat, 21888242871839275222246405745257275088696311157297823662689037894645226208583nat);
    lemma_mod_exp(3, 326690192117004107794722473809810075950691211302952591980433401412615316546nat, 21888242871839275222246405745257275088696311157297823662689037894645226208583nat);
    lemma_mod_exp(3, 95581846601918232411556356966188974186446773612654251802135536657839415758nat, 21888242871839275222246405745257275088696311157297823662689037894645226208583nat);
    lemma_mod_exp(3, 70380202160254904251596159952595739835036370280700397629225202233585936362nat, 21888242871839275222246405745257275088696311157297823662689037894645226208583nat);
    lemma_mod_exp(3, 22266778099531307448877320188461114027157997108136138008839306098316608554nat, 21888242871839275222246405745257275088696311157297823662689037894645226208583nat);
    lemma_mod_exp(3, 1989297725333025104266691424634851866645125071098593443850680532095358194nat, 21888242871839275222246405745257275088696311157297823662689037894645226208583nat);
    lemma_mod_exp(3, 53921384552563552462426805409431605981462554858784049127514694749818nat, 21888242871839275222246405745257275088696311157297823662689037894645226208583nat);
    lemma_mod_exp(3, 1908975203563790751034266631218829680491566255156566185884264578582nat, 21888242871839275222246405745257275088696311157297823662689037894645226208583nat);
    lemma_mod_exp(3, 1630082690626329392154177744477557478nat, 21888242871839275222246405745257275088696311157297823662689037894645226208583nat);
    lemma_no_early_unit_start(21888242871839275222246405745257275088696311157297823662689037894645226208583nat, 3, 21888242871839275222246405745257275088696311157297823662689037894645226208582nat);
    lemma_no_early_unit_extend(21888242871839275222246405745257275088696311157297823662689037894645226208583nat, 3, 1, 2, 10944121435919637611123202872628637544348155578648911831344518947322613104291nat, 10944121435919637611123202872628637544348155578648911831344518947322613104291nat);
    lemma_no_early_unit_extend(21888242871839275222246405745257275088696311157297823662689037894645226208583nat, 3, 2, 3, 3648040478639879203707734290876212514782718526216303943781506315774204368097nat, 7296080957279758407415468581752425029565437052432607887563012631548408736194nat);
    lemma_no_early_unit_extend(21888242871839275222246405745257275088696311157297823662689037894645226208583nat, 3, 6, 3, 1216013492879959734569244763625404171594239508738767981260502105258068122699nat, 7296080957279758407415468581752425029565437052432607887563012631548408736194nat);
    lemma_no_early_unit_extend(21888242871839275222246405745257275088696311157297823662689037894645226208583nat, 3, 18, 13, 93539499452304594966864981817338782430326116056828306250807854250620624823nat, 1683710990141482709403569672712098083745870089022909512514541376511171246814nat);
    lemma_no_early_unit_extend(21888242871839275222246405745257275088696311157297823662689037894645226208583nat, 3, 234, 29, 3225499981113951550581551097149613187252624691614769181062339801745538787nat, 754766995580664662836082956733009485817114177837855988368587513608456076158nat);
    lemma_no_early_unit_extend(21888242871839275222246405745257275088696311157297823662689037894645226208583nat, 3, 6786, 67, 48141790762894799262411210405218107272427234203205510165109549279784161nat, 326690192117004107794722473809810075950691211302952591980433401412615316546nat);
    lemma_no_early_unit_extend(21888242871839275222246405745257275088696311157297823662689037894645226208583nat, 3, 454662, 229, 210226160536658512062931049804445883285708446302207467969910695544909nat, 95581846601918232411556356966188974186446773612654251802135536657839415758nat);
    lemma_no_early_unit_extend(21888242871839275222246405745257275088696311157297823662689037894645226208583nat, 3, 104117598, 311, 675968361854207434285951928631658788700027158527998289292317349019nat, 70380202160254904251596159952595739835036370280700397629225202233585936362nat);
    lemma_no_early_unit_extend(21888242871839275222246405745257275088696311157297823662689037894645226208583nat, 3, 32380572978, 983, 687658557328796982996899215291616265208572897790435696126467293nat, 22266778099531307448877320188461114027157997108136138008839306098316608554nat);
    lemma_no_early_unit_extend(21888242871839275222246405745257275088696311157297823662689037894645226208583nat, 3, 31830103237374, 11003, 62497369565463690175124894600710375825554203198258265575431nat, 1989297725333025104266691424634851866645125071098593443850680532095358194nat);
    lemma_no_early_unit_extend(21888242871839275222246405745257275088696311157297823662689037894645226208583nat, 3, 350226625920826122, 405928799, 153961408304670913913464155571554744076076758471769nat, 53921384552563552462426805409431605981462554858784049127514694749818nat);
    lemma_no_early_unit_extend(21888242871839275222246405745257275088696311157297823662689037894645226208583nat, 3, 142167073637863216791287478nat, 11465965001, 13427688667394608761327070753331941386769nat, 1908975203563790751034266631218829680491566255156566185884264578582nat);
    lemma_no_early_unit_extend(21888242871839275222246405745257275088696311157297823662689037894645226208583nat, 3, 1630082690626329392154177744477557478nat, 13427688667394608761327070753331941386769nat, 1, 1630082690626329392154177744477557478nat);
    lemma_full_order_generates(21888242871839275222246405745257275088696311157297823662689037894645226208583nat, 3);
    lemma_generator_implies_field(3, 21888242871839275222246405745257275088696311157297823662689037894645226208583nat);
}

} // verus!
