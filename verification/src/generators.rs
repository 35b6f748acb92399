//! The proof that each role's base generates the group.
//!
//! For each base the three powers that decide the matter are established by
//! a chain of products of concrete residues: fifty-six squarings, and a few
//! products that lead from there to the third, the half and the whole of the
//! order.
use crate::field::{lemma_pow_mod_sum, pow_mod_spec, MODULUS};
use crate::group::generates;
use vstd::arithmetic::div_mod::lemma_small_mod;
use vstd::arithmetic::power::lemma_pow1;
use vstd::prelude::*;

verus! {

/// One link of a chain: the product of two known powers is the power to the
/// sum of the exponents.
proof fn lemma_product_step(base: nat, e1: nat, v1: nat, e2: nat, v2: nat, product: nat)
    requires
        pow_mod_spec(base, e1) == v1,
        pow_mod_spec(base, e2) == v2,
        (v1 * v2) % (MODULUS as nat) == product,
    ensures
        pow_mod_spec(base, e1 + e2) == product,
{
    lemma_pow_mod_sum(base, e1, e2);
}

/// One link of a chain: the square of a known power is the power to twice
/// the exponent.
proof fn lemma_square_step(base: nat, exp: nat, value: nat, square: nat)
    requires
        pow_mod_spec(base, exp) == value,
        (value * value) % (MODULUS as nat) == square,
    ensures
        pow_mod_spec(base, 2 * exp) == square,
{
    lemma_pow_mod_sum(base, exp, exp);
}

/// The base 5 raised to `2^14`, by squarings.
proof fn lemma_five_to_two_to_14()
    ensures
        pow_mod_spec(5, 16384) == 1645023562514300500,
{
    lemma_pow1(5);
    lemma_small_mod(5, MODULUS as nat);
    lemma_square_step(5, 1, 5, 25);
    lemma_square_step(5, 2, 25, 625);
    lemma_square_step(5, 4, 625, 390625);
    lemma_square_step(5, 8, 390625, 152587890625);
    lemma_square_step(5, 16, 152587890625, 607213386105405634);
    lemma_square_step(5, 32, 607213386105405634, 221584202684618668);
    lemma_square_step(5, 64, 221584202684618668, 260436102276181796);
    lemma_square_step(5, 128, 260436102276181796, 476676935440284669);
    lemma_square_step(5, 256, 476676935440284669, 1823363082966813579);
    lemma_square_step(5, 512, 1823363082966813579, 824137850568285);
    lemma_square_step(5, 1024, 824137850568285, 1112550835204654147);
    lemma_square_step(5, 2048, 1112550835204654147, 121763898168187132);
    lemma_square_step(5, 4096, 121763898168187132, 312524676656546976);
    lemma_square_step(5, 8192, 312524676656546976, 1645023562514300500);
}

/// The base 5 raised to `2^28`, by squarings from `2^14`.
proof fn lemma_five_to_two_to_28()
    ensures
        pow_mod_spec(5, 268435456) == 666235953522315769,
{
    lemma_five_to_two_to_14();
    lemma_square_step(5, 16384, 1645023562514300500, 1191073746581553955);
    lemma_square_step(5, 32768, 1191073746581553955, 322629587572319481);
    lemma_square_step(5, 65536, 322629587572319481, 1822818971340563918);
    lemma_square_step(5, 131072, 1822818971340563918, 1245608668862335613);
    lemma_square_step(5, 262144, 1245608668862335613, 850092247739892210);
    lemma_square_step(5, 524288, 850092247739892210, 762876238459554307);
    lemma_square_step(5, 1048576, 762876238459554307, 500185034985314012);
    lemma_square_step(5, 2097152, 500185034985314012, 1014638959248804591);
    lemma_square_step(5, 4194304, 1014638959248804591, 318282155790257186);
    lemma_square_step(5, 8388608, 318282155790257186, 306637706543676110);
    lemma_square_step(5, 16777216, 306637706543676110, 1248466126721572017);
    lemma_square_step(5, 33554432, 1248466126721572017, 1548584506519601759);
    lemma_square_step(5, 67108864, 1548584506519601759, 1295298971885574722);
    lemma_square_step(5, 134217728, 1295298971885574722, 666235953522315769);
}

/// The base 5 raised to `2^42`, by squarings from `2^28`.
proof fn lemma_five_to_two_to_42()
    ensures
        pow_mod_spec(5, 4398046511104) == 932925844589613608,
{
    lemma_five_to_two_to_28();
    lemma_square_step(5, 268435456, 666235953522315769, 602177301689646442);
    lemma_square_step(5, 536870912, 602177301689646442, 1036703133601407703);
    lemma_square_step(5, 1073741824, 1036703133601407703, 1561304722940609489);
    lemma_square_step(5, 2147483648, 1561304722940609489, 961475367946474821);
    lemma_square_step(5, 4294967296, 961475367946474821, 196724865302835208);
    lemma_square_step(5, 8589934592, 196724865302835208, 1348380625270627334);
    lemma_square_step(5, 17179869184, 1348380625270627334, 1093896388392012779);
    lemma_square_step(5, 34359738368, 1093896388392012779, 274103823205435144);
    lemma_square_step(5, 68719476736, 274103823205435144, 1367241577747700858);
    lemma_square_step(5, 137438953472, 1367241577747700858, 207842051949685668);
    lemma_square_step(5, 274877906944, 207842051949685668, 578313754310159053);
    lemma_square_step(5, 549755813888, 578313754310159053, 224376913265490086);
    lemma_square_step(5, 1099511627776, 224376913265490086, 13850218896836428);
    lemma_square_step(5, 2199023255552, 13850218896836428, 932925844589613608);
}

/// The base 5 raised to `2^55`, by squarings from `2^42`.
proof fn lemma_five_to_two_to_55()
    ensures
        pow_mod_spec(5, 36028797018963968) == 261185387743551247,
{
    lemma_five_to_two_to_42();
    lemma_square_step(5, 4398046511104, 932925844589613608, 1086672723187626422);
    lemma_square_step(5, 8796093022208, 1086672723187626422, 490113162902756058);
    lemma_square_step(5, 17592186044416, 490113162902756058, 724451388045677986);
    lemma_square_step(5, 35184372088832, 724451388045677986, 1330721730677191777);
    lemma_square_step(5, 70368744177664, 1330721730677191777, 734383557419656103);
    lemma_square_step(5, 140737488355328, 734383557419656103, 1038629271280034314);
    lemma_square_step(5, 281474976710656, 1038629271280034314, 161255072189839450);
    lemma_square_step(5, 562949953421312, 161255072189839450, 1337750648288614128);
    lemma_square_step(5, 1125899906842624, 1337750648288614128, 1352529119121046849);
    lemma_square_step(5, 2251799813685248, 1352529119121046849, 12394116017081865);
    lemma_square_step(5, 4503599627370496, 12394116017081865, 1557202151974121698);
    lemma_square_step(5, 9007199254740992, 1557202151974121698, 799286393520887116);
    lemma_square_step(5, 18014398509481984, 799286393520887116, 261185387743551247);
}

/// The base 5 generates the whole group: its power to the order is 1,
/// and its powers to the half and to the third of the order are not.
pub proof fn lemma_five_generates()
    ensures
        generates(5),
{
    lemma_five_to_two_to_55();
    // 2^56
    lemma_square_step(5, 36028797018963968, 261185387743551247, 307278646110599788);
    // the third of the order: 2^56 * 9
    lemma_square_step(5, 72057594037927936, 307278646110599788, 548437372862511590);
    lemma_product_step(
        5,
        144115188075855872,
        548437372862511590,
        72057594037927936,
        307278646110599788,
        1245480475380557873,
    );
    lemma_square_step(5, 216172782113783808, 1245480475380557873, 196702028973216495);
    lemma_product_step(
        5,
        432345564227567616,
        196702028973216495,
        216172782113783808,
        1245480475380557873,
        972777520719986688,
    );
    // the half of the order: 2^55 * 27
    lemma_product_step(
        5,
        72057594037927936,
        307278646110599788,
        36028797018963968,
        261185387743551247,
        350722660621980333,
    );
    lemma_square_step(5, 108086391056891904, 350722660621980333, 1245480475380557873);
    lemma_product_step(
        5,
        216172782113783808,
        1245480475380557873,
        108086391056891904,
        350722660621980333,
        972777520719986689,
    );
    lemma_square_step(5, 324259173170675712, 972777520719986689, 972777520719986688);
    lemma_product_step(
        5,
        648518346341351424,
        972777520719986688,
        324259173170675712,
        972777520719986689,
        1945555039024054272,
    );
    // the order
    lemma_square_step(5, 972777519512027136, 1945555039024054272, 1);
}

/// The base 17 raised to `2^14`, by squarings.
proof fn lemma_seventeen_to_two_to_14()
    ensures
        pow_mod_spec(17, 16384) == 49095319165226801,
{
    lemma_pow1(17);
    lemma_small_mod(17, MODULUS as nat);
    lemma_square_step(17, 1, 17, 289);
    lemma_square_step(17, 2, 289, 83521);
    lemma_square_step(17, 4, 83521, 6975757441);
    lemma_square_step(17, 8, 6975757441, 22315900065511656);
    lemma_square_step(17, 16, 22315900065511656, 625308126562940155);
    lemma_square_step(17, 32, 625308126562940155, 394298746219817700);
    lemma_square_step(17, 64, 394298746219817700, 404882612627134989);
    lemma_square_step(17, 128, 404882612627134989, 1090590394114913886);
    lemma_square_step(17, 256, 1090590394114913886, 155965265770895648);
    lemma_square_step(17, 512, 155965265770895648, 1134064243749053970);
    lemma_square_step(17, 1024, 1134064243749053970, 706542148445375134);
    lemma_square_step(17, 2048, 706542148445375134, 397165980473768331);
    lemma_square_step(17, 4096, 397165980473768331, 1207987698397446067);
    lemma_square_step(17, 8192, 1207987698397446067, 49095319165226801);
}

/// The base 17 raised to `2^28`, by squarings from `2^14`.
proof fn lemma_seventeen_to_two_to_28()
    ensures
        pow_mod_spec(17, 268435456) == 107417610207082513,
{
    lemma_seventeen_to_two_to_14();
    lemma_square_step(17, 16384, 49095319165226801, 51267044122215227);
    lemma_square_step(17, 32768, 51267044122215227, 480575955483833133);
    lemma_square_step(17, 65536, 480575955483833133, 922376214131319157);
    lemma_square_step(17, 131072, 922376214131319157, 889486433865194069);
    lemma_square_step(17, 262144, 889486433865194069, 1459399202433285712);
    lemma_square_step(17, 524288, 1459399202433285712, 1465266142464650781);
    lemma_square_step(17, 1048576, 1465266142464650781, 1801657326485858212);
    lemma_square_step(17, 2097152, 1801657326485858212, 1760550809354303407);
    lemma_square_step(17, 4194304, 1760550809354303407, 1250104222806885989);
    lemma_square_step(17, 8388608, 1250104222806885989, 1917862336280724244);
    lemma_square_step(17, 16777216, 1917862336280724244, 835738829088172425);
    lemma_square_step(17, 33554432, 835738829088172425, 1274468767186420169);
    lemma_square_step(17, 67108864, 1274468767186420169, 878632649475178038);
    lemma_square_step(17, 134217728, 878632649475178038, 107417610207082513);
}

/// The base 17 raised to `2^42`, by squarings from `2^28`.
proof fn lemma_seventeen_to_two_to_42()
    ensures
        pow_mod_spec(17, 4398046511104) == 1226162662267116254,
{
    lemma_seventeen_to_two_to_28();
    lemma_square_step(17, 268435456, 107417610207082513, 622093583261049752);
    lemma_square_step(17, 536870912, 622093583261049752, 1110435857994126686);
    lemma_square_step(17, 1073741824, 1110435857994126686, 1157515881917171465);
    lemma_square_step(17, 2147483648, 1157515881917171465, 1084014960827307094);
    lemma_square_step(17, 4294967296, 1084014960827307094, 1687995447709133288);
    lemma_square_step(17, 8589934592, 1687995447709133288, 181320919252445963);
    lemma_square_step(17, 17179869184, 181320919252445963, 1244310260799740196);
    lemma_square_step(17, 34359738368, 1244310260799740196, 486983940947921249);
    lemma_square_step(17, 68719476736, 486983940947921249, 1903184850826732915);
    lemma_square_step(17, 137438953472, 1903184850826732915, 1809545638954061886);
    lemma_square_step(17, 274877906944, 1809545638954061886, 1772038483510635091);
    lemma_square_step(17, 549755813888, 1772038483510635091, 63090299367935215);
    lemma_square_step(17, 1099511627776, 63090299367935215, 195282411586191400);
    lemma_square_step(17, 2199023255552, 195282411586191400, 1226162662267116254);
}

/// The base 17 raised to `2^55`, by squarings from `2^42`.
proof fn lemma_seventeen_to_two_to_55()
    ensures
        pow_mod_spec(17, 36028797018963968) == 1718117160039563064,
{
    lemma_seventeen_to_two_to_42();
    lemma_square_step(17, 4398046511104, 1226162662267116254, 1179230065483085104);
    lemma_square_step(17, 8796093022208, 1179230065483085104, 789393067151614233);
    lemma_square_step(17, 17592186044416, 789393067151614233, 1422871972634666907);
    lemma_square_step(17, 35184372088832, 1422871972634666907, 457402996564262920);
    lemma_square_step(17, 70368744177664, 457402996564262920, 325970616654226116);
    lemma_square_step(17, 140737488355328, 325970616654226116, 795497426303090079);
    lemma_square_step(17, 281474976710656, 795497426303090079, 941389032209833058);
    lemma_square_step(17, 562949953421312, 941389032209833058, 36263353630482752);
    lemma_square_step(17, 1125899906842624, 36263353630482752, 840487383880177336);
    lemma_square_step(17, 2251799813685248, 840487383880177336, 74287332134327664);
    lemma_square_step(17, 4503599627370496, 74287332134327664, 1011062164322612726);
    lemma_square_step(17, 9007199254740992, 1011062164322612726, 1441665067406531079);
    lemma_square_step(17, 18014398509481984, 1441665067406531079, 1718117160039563064);
}

/// The base 17 generates the whole group: its power to the order is 1,
/// and its powers to the half and to the third of the order are not.
pub proof fn lemma_seventeen_generates()
    ensures
        generates(17),
{
    lemma_seventeen_to_two_to_55();
    // 2^56
    lemma_square_step(17, 36028797018963968, 1718117160039563064, 1383355954553304512);
    // the third of the order: 2^56 * 9
    lemma_square_step(17, 72057594037927936, 1383355954553304512, 798911853837327768);
    lemma_product_step(
        17,
        144115188075855872,
        798911853837327768,
        72057594037927936,
        1383355954553304512,
        1692818822483442592,
    );
    lemma_square_step(17, 216172782113783808, 1692818822483442592, 1594832378402073940);
    lemma_product_step(
        17,
        432345564227567616,
        1594832378402073940,
        216172782113783808,
        1692818822483442592,
        972777520719986688,
    );
    // the half of the order: 2^55 * 27
    lemma_product_step(
        17,
        72057594037927936,
        1383355954553304512,
        36028797018963968,
        1718117160039563064,
        1791534407375290435,
    );
    lemma_square_step(17, 108086391056891904, 1791534407375290435, 1692818822483442592);
    lemma_product_step(
        17,
        216172782113783808,
        1692818822483442592,
        108086391056891904,
        1791534407375290435,
        972777520719986689,
    );
    lemma_square_step(17, 324259173170675712, 972777520719986689, 972777520719986688);
    lemma_product_step(
        17,
        648518346341351424,
        972777520719986688,
        324259173170675712,
        972777520719986689,
        1945555039024054272,
    );
    // the order
    lemma_square_step(17, 972777519512027136, 1945555039024054272, 1);
}

} // verus!
