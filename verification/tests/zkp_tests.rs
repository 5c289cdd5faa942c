use zkp::Natural;
use zkp::ZKP;

const P_1024_HEX: &str = "B10B8F96A080E01DDE92DE5EAE5D54EC52C99FBCFB06A3C69A6A9DCA52D23B616073E28675A23D189838EF1E2EE652C013ECB4AEA906112324975C3CD49B83BFACCBDD7D90C4BD7098488E9C219A73724EFFD6FAE5644738FAA31A4FF55BCCC0A151AF5F0DC8B4BD45BF37DF365C1A65E68CFDA76D4DA708DF1FB2BC2E4A4371";
const Q_1024_HEX: &str = "F518AA8781A8DF278ABA4E7D64B7CB9D49462353";
const ALPHA_1024_HEX: &str = "A4D1CBD5C3FD34126765A442EFB99905F8104DD258AC507FD6406CFF14266D31266FEA1E5C41564B777E690F5504F213160217B4B01B886A5E91547F9E2749F4D7FBD7D3B9A92EE1909D0D2263F80A76A6A24C087A091F531DBF0A0169B6A28AD662A4D18E73AFA32D779D5918D08BC8858F4DCEF97C2A24855E6EEB22B3B2E5";

const P_2048_HEX: &str = "AD107E1E9123A9D0D660FAA79559C51FA20D64E5683B9FD1B54B1597B61D0A75E6FA141DF95A56DBAF9A3C407BA1DF15EB3D688A309C180E1DE6B85A1274A0A66D3F8152AD6AC2129037C9EDEFDA4DF8D91E8FEF55B7394B7AD5B7D0B6C12207C9F98D11ED34DBF6C6BA0B2C8BBC27BE6A00E0A0B9C49708B3BF8A317091883681286130BC8985DB1602E714415D9330278273C7DE31EFDC7310F7121FD5A07415987D9ADC0A486DCDF93ACC44328387315D75E198C641A480CD86A1B9E587E8BE60E69CC928B2B9C52172E413042E9B23F10B0E16E79763C9B53DCF4BA80A29E3FB73C16B8E75B97EF363E2FFA31F71CF9DE5384E71B81C0AC4DFFE0C10E64F";
const Q_2048_HEX: &str = "801C0D34C58D93FE997177101F80535A4738CEBCBF389A99B36371EB";
const ALPHA_2048_HEX: &str = "AC4032EF4F2D9AE39DF30B5C8FFDAC506CDEBE7B89998CAF74866A08CFE4FFE3A6824A4E10B9A6F0DD921F01A70C4AFAAB739D7700C29F52C57DB17C620A8652BE5E9001A8D66AD7C17669101999024AF4D027275AC1348BB8A762D0521BC98AE247150422EA1ED409939D54DA7460CDB5F6C6B250717CBEF180EB34118E98D119529A45D6F834566E3025E316A330EFBB77A86F0C1AB15B051AE3D428C8F8ACB70A8137150B8EEB10E183EDD19963DDD9E263E4770589EF6AA21E7F5F2FF381B539CCE3409D13CD566AFBB48D6C019181E1BCFE94B30269EDFE72FE9B6AA4BD7B5A0F1C71CFFF4C19C418E1F6EC017981BC087F2A7065B384B890D3191F2BFA";

fn natural_from_hex(s: &str) -> Natural {
    Natural::from_bytes_be(&hex::decode(s).unwrap())
}

#[test]
fn test_example() {
    // alpha = 4, beta = 9, p = 23, q = 11
    // prover x = 6, k = 7
    // verifier c = 4
    let alpha = Natural::from_u64(4); // generator
    let beta = Natural::from_u64(9); // generator
    let p = Natural::from_u64(23); // prime number
    let q = Natural::from_u64(11); // group order
    let zkp = ZKP { p: p.clone(), q: q.clone(), alpha: alpha.clone(), beta: beta.clone() };

    let x = Natural::from_u64(6); // secret
    let k = Natural::from_u64(7); // random

    let c = Natural::from_u64(4); // challenge

    // y1 = alpha^x mod p
    // y2 = beta^x mod p
    let y1 = ZKP::exponentiate(&alpha, &x, &p);
    let y2 = ZKP::exponentiate(&beta, &x, &p);

    assert_eq!(y1, Natural::from_u64(2)); // 4^6 mod 23 = 2
    assert_eq!(y2, Natural::from_u64(3)); // 9^6 mod 23 = 3

    // r1 = alpha^k mod p
    // r2 = beta^k mod p
    let r1 = ZKP::exponentiate(&alpha, &k, &p);
    let r2 = ZKP::exponentiate(&beta, &k, &p);

    assert_eq!(r1, Natural::from_u64(8)); // 4^7 mod 23 = 8
    assert_eq!(r2, Natural::from_u64(4)); // 9^7 mod 23 = 4

    let s = zkp.solve(&k, &c, &x); // s = k - c * x mod q

    assert_eq!(s, Natural::from_u64(5)); // s = 7 - 4 * 6 mod 11 = 5

    let result = zkp.verify(&r1, &r2, &y1, &y2, &c, &s); // r1 = alpha^s * y1^c mod p
    assert!(result); // should be true

    // fake secret
    let x_fake = Natural::from_u64(7); // secret
    let s_fake = zkp.solve(&k, &c, &x_fake); // s = k - c * x mod q

    let result = zkp.verify(&r1, &r2, &y1, &y2, &c, &s_fake); // r1 = alpha^s * y1^c mod p
    assert!(!result); // should be false
}

#[test]
fn test_example_with_random_numbers() {
    // alpha = 4, beta = 9, p = 23, q = 11
    let alpha = Natural::from_u64(4); // generator
    let beta = Natural::from_u64(9); // generator
    let p = Natural::from_u64(23); // prime number
    let q = Natural::from_u64(11); // group order
    let zkp = ZKP { p: p.clone(), q: q.clone(), alpha: alpha.clone(), beta: beta.clone() };

    let x = Natural::from_u64(6); // secret
    let k = ZKP::generate_random_below(&q); // random

    let c = ZKP::generate_random_below(&q); // challenge

    // y1 = alpha^x mod p
    // y2 = beta^x mod p
    let y1 = ZKP::exponentiate(&alpha, &x, &p);
    let y2 = ZKP::exponentiate(&beta, &x, &p);

    assert_eq!(y1, Natural::from_u64(2)); // 4^6 mod 23 = 2
    assert_eq!(y2, Natural::from_u64(3)); // 9^6 mod 23 = 3

    // r1 = alpha^k mod p
    // r2 = beta^k mod p
    let r1 = ZKP::exponentiate(&alpha, &k, &p);
    let r2 = ZKP::exponentiate(&beta, &k, &p);

    let s = zkp.solve(&k, &c, &x); // s = k - c * x mod q

    let result = zkp.verify(&r1, &r2, &y1, &y2, &c, &s); // r1 = alpha^s * y1^c mod p
    assert!(result); // should be true
}

#[test]
// cf this ressource https://www.rfc-editor.org/rfc/rfc5114#page-4
fn test_1024_bits_constants() {
    let p = natural_from_hex(P_1024_HEX);
    let q = natural_from_hex(Q_1024_HEX);

    let alpha = natural_from_hex(ALPHA_1024_HEX);

    // beta = alpha^i(elevated to any number) is also a generator
    let beta = ZKP::exponentiate(&alpha, &ZKP::generate_random_below(&q), &p);

    let zkp = ZKP { p: p.clone(), q: q.clone(), alpha: alpha.clone(), beta: beta.clone() };

    let x = ZKP::generate_random_below(&q); // secret
    let k = ZKP::generate_random_below(&q); // random

    let c = ZKP::generate_random_below(&q); // challenge

    // y1 = alpha^x mod p
    // y2 = beta^x mod p
    let y1 = ZKP::exponentiate(&alpha, &x, &p);
    let y2 = ZKP::exponentiate(&beta, &x, &p);

    // r1 = alpha^k mod p
    // r2 = beta^k mod p
    let r1 = ZKP::exponentiate(&alpha, &k, &p);
    let r2 = ZKP::exponentiate(&beta, &k, &p);

    let s = zkp.solve(&k, &c, &x); // s = k - c * x mod q

    let result = zkp.verify(&r1, &r2, &y1, &y2, &c, &s); // r1 = alpha^s * y1^c mod p
    assert!(result); // should be true
}

#[test]
fn test_2048_bits_constants() {
    let p = natural_from_hex(P_2048_HEX);
    let q = natural_from_hex(Q_2048_HEX);

    let alpha = natural_from_hex(ALPHA_2048_HEX);

    // beta = alpha^i is also a generator
    let beta = ZKP::exponentiate(&alpha, &ZKP::generate_random_below(&q), &p);

    let zkp = ZKP { p: p.clone(), q: q.clone(), alpha: alpha.clone(), beta: beta.clone() };

    let x = ZKP::generate_random_below(&q);
    let k = ZKP::generate_random_below(&q);

    let c = ZKP::generate_random_below(&q);

    let y1 = ZKP::exponentiate(&alpha, &x, &p);
    let y2 = ZKP::exponentiate(&beta, &x, &p);

    let r1 = ZKP::exponentiate(&alpha, &k, &p);
    let r2 = ZKP::exponentiate(&beta, &k, &p);

    let s = zkp.solve(&k, &c, &x);

    let result = zkp.verify(&r1, &r2, &y1, &y2, &c, &s);
    assert!(result);
}

#[test]
fn test_exponentiate_identities() {
    // n^0 mod m = 1 and n^1 mod m = n mod m
    let m = Natural::from_u64(97);
    let n = Natural::from_u64(1234567);
    let zero = Natural::from_u64(0);
    let one = Natural::from_u64(1);
    assert_eq!(ZKP::exponentiate(&n, &zero, &m), Natural::from_u64(1));
    // 1234567 mod 97 = 48
    assert_eq!(ZKP::exponentiate(&n, &one, &m), Natural::from_u64(48));
    // 2^10 mod 1000 = 24
    let b = Natural::from_u64(2);
    let e = Natural::from_u64(10);
    let m2 = Natural::from_u64(1000);
    assert_eq!(ZKP::exponentiate(&b, &e, &m2), Natural::from_u64(24));
}

#[test]
fn test_solve_underflow() {
    // k < c * x: the response must still land in [0, q).
    let q = Natural::from_u64(11);
    let zkp = ZKP {
        p: Natural::from_u64(23),
        q: q.clone(),
        alpha: Natural::from_u64(4),
        beta: Natural::from_u64(9),
    };
    // (7 - 4 * 6) mod 11 = (-17) mod 11 = 5
    let s = zkp.solve(&Natural::from_u64(7), &Natural::from_u64(4), &Natural::from_u64(6));
    assert_eq!(s, Natural::from_u64(5));
    // (1 - 2 * 6) mod 11 = (-11) mod 11 = 0: the difference is an exact
    // multiple of q.
    let s = zkp.solve(&Natural::from_u64(1), &Natural::from_u64(2), &Natural::from_u64(6));
    assert_eq!(s, Natural::from_u64(0));
    // No underflow: (9 - 2 * 3) mod 11 = 3.
    let s = zkp.solve(&Natural::from_u64(9), &Natural::from_u64(2), &Natural::from_u64(3));
    assert_eq!(s, Natural::from_u64(3));
}

#[test]
fn test_random_below_bound() {
    // Over many trials no sample may reach the bound.
    let bound = Natural::from_u64(10);
    for _ in 0..200 {
        let v = ZKP::generate_random_below(&bound);
        assert!(v.lt(&bound));
    }
    // With bound 1 the only possible sample is 0.
    let one = Natural::from_u64(1);
    for _ in 0..20 {
        let v = ZKP::generate_random_below(&one);
        assert_eq!(v, Natural::from_u64(0));
    }
    // A large bound keeps the sample below it too.
    let big = natural_from_hex(Q_1024_HEX);
    for _ in 0..20 {
        let v = ZKP::generate_random_below(&big);
        assert!(v.lt(&big));
    }
}

#[test]
fn test_get_constants_round_trip() {
    let (alpha, beta, p, q) = ZKP::get_constants();
    assert_eq!(p, natural_from_hex(P_1024_HEX));
    assert_eq!(q, natural_from_hex(Q_1024_HEX));
    assert_eq!(alpha, natural_from_hex(ALPHA_1024_HEX));
    assert!(beta.lt(&p));

    let zkp = ZKP { p: p.clone(), q: q.clone(), alpha: alpha.clone(), beta: beta.clone() };
    let x = ZKP::generate_random_below(&q);
    let k = ZKP::generate_random_below(&q);
    let c = ZKP::generate_random_below(&q);
    let y1 = ZKP::exponentiate(&alpha, &x, &p);
    let y2 = ZKP::exponentiate(&beta, &x, &p);
    let r1 = ZKP::exponentiate(&alpha, &k, &p);
    let r2 = ZKP::exponentiate(&beta, &k, &p);
    let s = zkp.solve(&k, &c, &x);
    assert!(zkp.verify(&r1, &r2, &y1, &y2, &c, &s));
}

#[test]
fn test_from_bytes_be() {
    // Big-endian place value, and leading zeros change nothing.
    assert_eq!(Natural::from_bytes_be(&vec![1, 0]), Natural::from_u64(256));
    assert_eq!(Natural::from_bytes_be(&vec![0, 0, 5]), Natural::from_u64(5));
    assert_eq!(Natural::from_bytes_be(&vec![]), Natural::from_u64(0));
    assert_eq!(
        Natural::from_bytes_be(&vec![0x01, 0x00, 0x00, 0x00, 0x00]),
        Natural::from_u64(0x1_0000_0000)
    );
    assert_eq!(Natural::from_bytes_be(&hex::decode("0A").unwrap()), Natural::from_u64(10));
}

#[test]
fn test_lt() {
    let five = Natural::from_u64(5);
    let big = Natural::from_u64(256);
    assert!(five.lt(&big));
    assert!(!big.lt(&five));
    assert!(!five.lt(&five));
}
