use gladius::tower::{join_fragments, TowerRing, TowerRingElement};

fn join_rings(mut first: TowerRing, second: TowerRing) -> TowerRing {
    TowerRing::join_rings_in_place(&mut first, &second);

    first
}

fn rings_sliding_equality_assert(lhs: Vec<TowerRing>, rhs: Vec<TowerRing>) {
    if lhs == rhs {
        return;
    }
    if lhs.len() != rhs.len() {
        panic!("ASSERT rings count are different lengths");
    }

    for q in 0..lhs.len() {
        ring_sliding_equality_assert(&lhs[q], &rhs[q])
    }
}

fn ring_sliding_equality_assert(lhs: &TowerRing, rhs: &TowerRing) {
    if lhs == rhs {
        return;
    }
    if lhs.elements.len() != rhs.elements.len() {
        panic!("ASSERT ring {:?} and {:?} are different lengths", lhs, rhs);
    }

    for q in 0..lhs.elements.len() - 1 {
        let mut equal = true;
        for w in 0..lhs.elements.len() - 1 {
            equal = equal && rhs.elements[w] == lhs.elements[(w + q) % (lhs.elements.len() - 1)]
        }

        if equal {
            return;
        }

        if lhs.elements.len() != rhs.elements.len() {
            panic!("ASSERT ring {:?} and {:?} are different", lhs, rhs);
        }
    }
}

#[test]
fn join_rings_test() {
    let r1 = TowerRing {
        elements: vec![
            TowerRingElement::Edge {
                start_index: 0,
                end_index: 1,
            },
            TowerRingElement::Face { triangle_index: 0 },
            TowerRingElement::Edge {
                start_index: 0,
                end_index: 2,
            },
        ],
    };

    let r2 = TowerRing {
        elements: vec![
            TowerRingElement::Edge {
                start_index: 0,
                end_index: 2,
            },
            TowerRingElement::Face { triangle_index: 2 },
            TowerRingElement::Edge {
                start_index: 4,
                end_index: 6,
            },
        ],
    };

    let r3 = TowerRing {
        elements: vec![
            TowerRingElement::Edge {
                start_index: 0,
                end_index: 1,
            },
            TowerRingElement::Face { triangle_index: 0 },
            TowerRingElement::Edge {
                start_index: 0,
                end_index: 2,
            },
            TowerRingElement::Face { triangle_index: 2 },
            TowerRingElement::Edge {
                start_index: 4,
                end_index: 6,
            },
        ],
    };

    ring_sliding_equality_assert(&join_rings(r1, r2), &r3);
}

#[test]
fn split_on_edge_test() {
    let r1 = TowerRing {
        elements: vec![
            TowerRingElement::Edge {
                start_index: 0,
                end_index: 1,
            },
            TowerRingElement::Face { triangle_index: 0 },
            TowerRingElement::Edge {
                start_index: 0,
                end_index: 2,
            },
            TowerRingElement::Face { triangle_index: 2 },
            TowerRingElement::Edge {
                start_index: 0,
                end_index: 1,
            },
        ],
    };

    let frags = r1.split_on_edge(2);

    let expected = vec![TowerRing {
        elements: vec![
            TowerRingElement::Face { triangle_index: 2 },
            TowerRingElement::Edge {
                start_index: 0,
                end_index: 1,
            },
            TowerRingElement::Face { triangle_index: 0 },
        ],
    }];
    rings_sliding_equality_assert(frags, expected);
}

#[test]
fn assemble_fragment_simple_test() {
    let mut frags = vec![
        TowerRing {
            elements: vec![
                TowerRingElement::Edge {
                    start_index: 0,
                    end_index: 1,
                },
                TowerRingElement::Face { triangle_index: 0 },
                TowerRingElement::Edge {
                    start_index: 0,
                    end_index: 2,
                },
                TowerRingElement::Face { triangle_index: 2 },
                TowerRingElement::Edge {
                    start_index: 4,
                    end_index: 6,
                },
            ],
        },
        TowerRing {
            elements: vec![
                TowerRingElement::Edge {
                    start_index: 4,
                    end_index: 6,
                },
                TowerRingElement::Face { triangle_index: 2 },
                TowerRingElement::Edge {
                    start_index: 0,
                    end_index: 1,
                },
            ],
        },
    ];

    join_fragments(&mut frags);

    let expected = vec![TowerRing {
        elements: vec![
            TowerRingElement::Edge {
                start_index: 0,
                end_index: 1,
            },
            TowerRingElement::Face { triangle_index: 0 },
            TowerRingElement::Edge {
                start_index: 0,
                end_index: 2,
            },
            TowerRingElement::Face { triangle_index: 2 },
            TowerRingElement::Edge {
                start_index: 4,
                end_index: 6,
            },
            TowerRingElement::Face { triangle_index: 2 },
            TowerRingElement::Edge {
                start_index: 0,
                end_index: 1,
            },
        ],
    }];

    rings_sliding_equality_assert(frags, expected);
}

#[test]
fn assemble_fragment_multiple_test() {
    let mut frags = vec![
        TowerRing {
            elements: vec![
                TowerRingElement::Edge {
                    start_index: 0,
                    end_index: 1,
                },
                TowerRingElement::Face { triangle_index: 0 },
            ],
        },
        TowerRing {
            elements: vec![
                TowerRingElement::Face { triangle_index: 0 },
                TowerRingElement::Edge {
                    start_index: 0,
                    end_index: 2,
                },
                TowerRingElement::Face { triangle_index: 1 },
            ],
        },
        TowerRing {
            elements: vec![
                TowerRingElement::Face { triangle_index: 1 },
                TowerRingElement::Edge {
                    start_index: 0,
                    end_index: 3,
                },
            ],
        },
        TowerRing {
            elements: vec![
                TowerRingElement::Edge {
                    start_index: 0,
                    end_index: 3,
                },
                TowerRingElement::Face { triangle_index: 4 },
            ],
        },
        TowerRing {
            elements: vec![
                TowerRingElement::Face { triangle_index: 4 },
                TowerRingElement::Edge {
                    start_index: 0,
                    end_index: 1,
                },
            ],
        },
        TowerRing {
            elements: vec![
                TowerRingElement::Edge {
                    start_index: 0,
                    end_index: 11,
                },
                TowerRingElement::Face { triangle_index: 10 },
            ],
        },
        TowerRing {
            elements: vec![
                TowerRingElement::Face { triangle_index: 10 },
                TowerRingElement::Edge {
                    start_index: 0,
                    end_index: 12,
                },
                TowerRingElement::Face { triangle_index: 11 },
            ],
        },
        TowerRing {
            elements: vec![
                TowerRingElement::Face { triangle_index: 11 },
                TowerRingElement::Edge {
                    start_index: 0,
                    end_index: 11,
                },
            ],
        },
    ];

    join_fragments(&mut frags);

    let expected = vec![
        TowerRing {
            elements: vec![
                TowerRingElement::Edge {
                    start_index: 0,
                    end_index: 1,
                },
                TowerRingElement::Face { triangle_index: 0 },
                TowerRingElement::Edge {
                    start_index: 0,
                    end_index: 2,
                },
                TowerRingElement::Face { triangle_index: 1 },
                TowerRingElement::Edge {
                    start_index: 0,
                    end_index: 3,
                },
                TowerRingElement::Face { triangle_index: 4 },
                TowerRingElement::Edge {
                    start_index: 0,
                    end_index: 1,
                },
            ],
        },
        TowerRing {
            elements: vec![
                TowerRingElement::Edge {
                    start_index: 0,
                    end_index: 11,
                },
                TowerRingElement::Face { triangle_index: 10 },
                TowerRingElement::Edge {
                    start_index: 0,
                    end_index: 12,
                },
                TowerRingElement::Face { triangle_index: 11 },
                TowerRingElement::Edge {
                    start_index: 0,
                    end_index: 11,
                },
            ],
        },
    ];

    rings_sliding_equality_assert(frags, expected);
}

#[test]
fn assemble_fragment_3_fragment_test() {
    let mut frags = vec![
        TowerRing {
            elements: vec![
                TowerRingElement::Edge {
                    start_index: 0,
                    end_index: 11,
                },
                TowerRingElement::Face { triangle_index: 10 },
            ],
        },
        TowerRing {
            elements: vec![
                TowerRingElement::Face { triangle_index: 10 },
                TowerRingElement::Edge {
                    start_index: 0,
                    end_index: 12,
                },
                TowerRingElement::Face { triangle_index: 11 },
            ],
        },
        TowerRing {
            elements: vec![
                TowerRingElement::Face { triangle_index: 11 },
                TowerRingElement::Edge {
                    start_index: 0,
                    end_index: 11,
                },
            ],
        },
    ];

    join_fragments(&mut frags);

    let expected = vec![TowerRing {
        elements: vec![
            TowerRingElement::Edge {
                start_index: 0,
                end_index: 11,
            },
            TowerRingElement::Face { triangle_index: 10 },
            TowerRingElement::Edge {
                start_index: 0,
                end_index: 12,
            },
            TowerRingElement::Face { triangle_index: 11 },
            TowerRingElement::Edge {
                start_index: 0,
                end_index: 11,
            },
        ],
    }];

    rings_sliding_equality_assert(frags, expected);
}
