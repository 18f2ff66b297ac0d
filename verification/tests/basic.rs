use bittwidhash::BitTwidHash;
use std::hash::{BuildHasher, Hasher};

fn bhash() -> BitTwidHash {
    BitTwidHash::new_with_secret(std::hash::RandomState::new().build_hasher().finish())
}

#[test]
fn birthday_collisions_numbers() {
    let mut wrkarr = [[0u64; 1024]; 64];
    let bh0 = bhash();
    for a in 0..1000000 {
        let mut h = bh0.build_hasher();
        h.write(&(a as i32).to_ne_bytes());
        let x = h.finish();
        for i in 0..64 {
            let j = x.rotate_left(i) & 0x3FF;
            wrkarr[i as usize][j as usize] += 1;
        }
    }
    print_colls_1024(wrkarr);
}

fn print_colls_1024(wrkarr: [[u64; 1024]; 64]) {
    let mut resarr = [[0u64; 10]; 64];
    let mut resvec: Vec<u64> = Vec::new();
    for (i, mut arr) in (0..64).zip(wrkarr) {
        arr.sort();
        for j in 0..5 {
            resarr[i][j] = arr[j];
            resarr[i][j + 5] = arr[1023 - j];
            resvec.push(arr[j]);
            resvec.push(arr[1023 - j]);
        }
    }
    resvec.sort();

    let mut line = String::from("Overall min:");
    for i in 0..5 {
        line.push_str(&format!(" {:0>4}", resvec[i]));
    }
    println!("{}", line);
    resvec.reverse();
    line = String::from("Overall max:");
    for i in 0..5 {
        line.push_str(&format!(" {:0>4}", resvec[i]));
    }
    println!("{}", line);
    for (j, arr) in (0..64).zip(resarr) {
        line = format!("{: >2}: min:", j);
        for i in 0..5 {
            line.push_str(&format!(" {: >4}", arr[i]));
        }
        line.push_str("   max:");
        for i in 5..10 {
            line.push_str(&format!(" {: >4}", arr[i]));
        }
        println!("{}", line);
    }
}
